use pomolife::config::Config;
use pomolife::theme::{select_theme, Rgb, Theme};

#[test]
fn catalog_has_required_themes() {
    let names: Vec<_> = Theme::catalog()
        .into_iter()
        .map(|theme| theme.name)
        .collect();
    assert!(names.contains(&"gruvbox-dark".to_string()));
    assert!(names.contains(&"everforest-dark".to_string()));
    assert!(names.contains(&"catppuccin-mocha".to_string()));
    assert!(names.contains(&"high-contrast".to_string()));
}

#[test]
fn unknown_theme_is_an_error() {
    let e = Theme::by_name("no-such-theme").unwrap_err();
    assert_eq!(e.name, "no-such-theme");
    assert_eq!(e.message(), "unknown theme: no-such-theme");
}

#[test]
fn by_name_finds_catalog_entries() {
    for (i, t) in Theme::catalog().into_iter().enumerate() {
        let found = Theme::by_name(&t.name).unwrap();
        assert_eq!(found.name, t.name);
        assert_eq!(found.primary, t.primary);
        assert_eq!(Theme::at(i).name, t.name);
    }
}

#[test]
fn preview_shows_name_and_bar() {
    let t = Theme::catalog().into_iter().next().unwrap();
    let p = t.preview();
    assert!(p.starts_with(&t.name));
    assert!(p.ends_with("] 62%"));
    assert_eq!(p.matches('\u{2588}').count(), 10);
    assert_eq!(p.matches('\u{2591}').count(), 6);
}

#[test]
fn high_contrast_background_is_black() {
    let t = Theme::by_name("high-contrast").unwrap();
    assert_eq!(t.background, Rgb { r: 0, g: 0, b: 0 });
}

#[test]
fn selecting_a_theme() {
    let mut c = Config::default();
    select_theme(&mut c, "everforest-dark").unwrap();
    assert_eq!(c.visuals.theme, "everforest-dark");
    let e = select_theme(&mut c, "solarized").unwrap_err();
    assert_eq!(e.name, "solarized");
    assert_eq!(c.visuals.theme, "everforest-dark");
}
