use ant::ui::theme::{Rgb, Theme, ThemeManager, ThemeType};

#[test]
fn test_theme_creation() {
    let dark_theme = Theme::dark();
    assert_eq!(dark_theme.theme_type, ThemeType::Dark);

    let light_theme = Theme::light();
    assert_eq!(light_theme.theme_type, ThemeType::Light);

    let mut manager = ThemeManager::new();
    assert_eq!(manager.get_theme().theme_type, ThemeType::Dark);

    manager.toggle();
    assert_eq!(manager.get_theme().theme_type, ThemeType::Light);
}

#[test]
fn toggling_twice_restores_theme() {
    assert_eq!(ThemeType::Dark.toggle().toggle(), ThemeType::Dark);
    let mut t = Theme::dark();
    t.toggle();
    assert_eq!(t, Theme::light());
    t.toggle();
    assert_eq!(t, Theme::dark());
}

#[test]
fn colours_and_styles() {
    let d = Theme::dark();
    assert_eq!(d.colors.background, Rgb { r: 30, g: 30, b: 30 });
    assert_eq!(Theme::light().colors.error, Rgb { r: 200, g: 0, b: 0 });
    let s = d.title_style();
    assert_eq!(s.fg, Some(Rgb { r: 0, g: 150, b: 255 }));
    assert!(s.bold);
    assert_eq!(d.selected_style().bg, Some(d.colors.selected));
    assert_eq!(Theme::default(), Theme::dark());
    assert_eq!(ThemeType::default(), ThemeType::Dark);
}

#[test]
fn manager_sets_and_lists_themes() {
    let mut m = ThemeManager::default();
    m.set_theme(ThemeType::Light);
    assert_eq!(*m.get_theme(), Theme::light());
    assert_eq!(m.get_available_themes(), &[ThemeType::Dark, ThemeType::Light]);
    m.get_theme_mut().colors.accent = Rgb { r: 1, g: 2, b: 3 };
    assert_eq!(m.get_theme().colors.accent, Rgb { r: 1, g: 2, b: 3 });
}
