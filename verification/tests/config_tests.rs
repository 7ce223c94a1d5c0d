use pomolife::cli::{apply_overrides, parse_event_time, EventTimeError};
use pomolife::config::{lookup_key, parse_bool, Config, ConfigError, ConfigKey};
use pomolife::profile::Profile;

#[test]
fn default_config_values() {
    let c = Config::default();
    assert_eq!(c.app.default_mode, "pomodoro");
    assert_eq!(c.timer.focus_minutes, 25);
    assert_eq!(c.timer.long_break_every, 4);
    assert_eq!(c.visuals.theme, "catppuccin-mocha");
    assert_eq!(c.visuals.font, "digital");
    assert_eq!(c.storage.backend, "jsonl");
    assert!(!c.hooks.enabled);
    assert_eq!(c.profiles.len(), 3);
    assert_eq!(c.profiles.get("deep-work"), Some(Profile::deep_work()));
}

#[test]
fn profile_lookup_falls_back_to_default() {
    let c = Config::default();
    assert_eq!(c.profile(Some("micro")), Profile::micro());
    assert_eq!(c.profile(None), Profile::default());
    assert_eq!(c.profile(Some("unknown")), Profile::default());
}

#[test]
fn get_key_reads_settings() {
    let c = Config::default();
    assert_eq!(c.get_key("theme.name").as_deref(), Some("catppuccin-mocha"));
    assert_eq!(c.get_key("visuals.font").as_deref(), Some("digital"));
    assert_eq!(c.get_key("timer.focus_minutes").as_deref(), Some("25"));
    assert_eq!(c.get_key("input.mouse").as_deref(), Some("true"));
    assert_eq!(c.get_key("storage.backend").as_deref(), Some("jsonl"));
    assert_eq!(c.get_key("nope"), None);
}

#[test]
fn set_then_get_gives_back_the_value() {
    let mut c = Config::default();
    c.set_key("visual.theme", "gruvbox-dark").unwrap();
    assert_eq!(c.get_key("theme.name").as_deref(), Some("gruvbox-dark"));
    c.set_key("timer.short_break_minutes", "7").unwrap();
    assert_eq!(c.get_key("timer.short_break_minutes").as_deref(), Some("7"));
    assert_eq!(c.timer.short_break_minutes, 7);
    c.set_key("input.vim_keys", "false").unwrap();
    assert_eq!(c.get_key("input.vim_keys").as_deref(), Some("false"));
    c.set_key("timer.long_break_minutes", "+020").unwrap();
    assert_eq!(c.get_key("timer.long_break_minutes").as_deref(), Some("20"));
}

#[test]
fn set_key_errors_leave_the_config() {
    let mut c = Config::default();
    assert!(matches!(c.set_key("timer.focus_minutes", "ten"), Err(ConfigError::NotANumber)));
    assert_eq!(c.timer.focus_minutes, 25);
    assert!(matches!(c.set_key("input.mouse", "yes"), Err(ConfigError::NotABool)));
    assert!(c.input.mouse);
    let e = c.set_key("colour", "red").unwrap_err();
    assert!(matches!(&e, ConfigError::UnsupportedKey(k) if k == "colour"));
    assert_eq!(e.message(), "unsupported config key: colour");
}

#[test]
fn keys_and_bools() {
    assert!(matches!(lookup_key("visual.font"), Some(ConfigKey::Font)));
    assert!(matches!(lookup_key("timer.focus_minutes"), Some(ConfigKey::FocusMinutes)));
    assert!(lookup_key("timer.focus").is_none());
    assert_eq!(parse_bool("true"), Some(true));
    assert_eq!(parse_bool("false"), Some(false));
    assert_eq!(parse_bool("True"), None);
}

#[test]
fn overrides_replace_font_and_stop_animations() {
    let mut c = Config::default();
    apply_overrides(&mut c, Some("block".to_string()), true);
    assert_eq!(c.visuals.font, "block");
    assert!(!c.visuals.animations);
    let mut d = Config::default();
    apply_overrides(&mut d, None, false);
    assert_eq!(d.visuals.font, "digital");
    assert!(d.visuals.animations);
}

#[test]
fn event_time_format_errors() {
    assert_eq!(parse_event_time("tomorrow"), Err(EventTimeError::BadFormat));
    assert_eq!(parse_event_time("2030-01-15"), Err(EventTimeError::BadFormat));
    let t = parse_event_time("2030-01-15 09:30").unwrap();
    let local = chrono::NaiveDate::from_ymd_opt(2030, 1, 15)
        .unwrap()
        .and_hms_opt(9, 30, 0)
        .unwrap()
        .and_utc()
        .timestamp();
    assert_eq!(t.secs + i64::from(t.offset), local);
    assert_eq!(t.nanos, 0);
    assert!(t.is_valid());
    assert_eq!(
        EventTimeError::BadFormat.message(),
        "expected date format YYYY-MM-DD HH:MM"
    );
}
