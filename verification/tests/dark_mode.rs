use uwu::dark_mode::gnome::{read_color_scheme_value, read_gtk_theme_value};
use uwu::dark_mode::kde::{kdeglobals, qt_ct_config};
use uwu::dark_mode::macos::detect_from_defaults;
use uwu::dark_mode::windows::detect_from_registry;
use uwu::dark_mode::{detect, fallback, find_config_value, is_gnome_like, is_kde_like, DarkModeAction, Probe};

#[test]
fn test_desktop_families() {
    assert!(is_gnome_like("ubuntu:gnome"));
    assert!(is_gnome_like("x-cinnamon"));
    assert!(is_gnome_like("xfce"));
    assert!(!is_gnome_like("kde"));
    assert!(is_kde_like("kde"));
    assert!(is_kde_like("lxqt"));
    assert!(!is_kde_like("sway"));
}

#[test]
fn test_gsettings_replies() {
    assert_eq!(read_color_scheme_value("'prefer-dark'\n"), Some(true));
    assert_eq!(read_color_scheme_value("'default'\n"), Some(false));
    assert_eq!(read_color_scheme_value("'prefer-light'"), Some(false));
    assert_eq!(read_color_scheme_value("''"), None);
    assert_eq!(read_gtk_theme_value("'Adwaita-Dark'\n"), Some(true));
    assert_eq!(read_gtk_theme_value("'Adwaita'\n"), Some(false));
}

#[test]
fn test_kde_files() {
    assert_eq!(kdeglobals("[General]\nColorScheme=BreezeDark\n"), Some(true));
    assert_eq!(kdeglobals("[General]\ncolorScheme=BreezeLight\n"), Some(false));
    assert_eq!(kdeglobals("[KDE]\nColorScheme=BreezeDark\n"), None);
    assert_eq!(kdeglobals("[general]\n  ColorScheme=Dark  \n[Other]\n"), Some(true));
    assert_eq!(kdeglobals(""), None);
    assert_eq!(
        qt_ct_config("[Appearance]\ncolor_scheme_path=/usr/share/qt6ct/colors/darker.conf\n"),
        Some(true)
    );
    assert_eq!(qt_ct_config("[Fonts]\ncolor_scheme_path=dark\n"), None);
}

#[test]
fn test_find_config_value_first_in_section() {
    let text: Vec<char> = "key=0\n[S]\nkey=1\nkey=2\n".chars().collect();
    let section: Vec<char> = "[S]".chars().collect();
    let key: Vec<char> = "key=".chars().collect();
    let v = find_config_value(&text, &section, &key, &key).unwrap();
    assert_eq!(v.into_iter().collect::<String>(), "1");
}

#[test]
fn test_detection_plans_and_answers() {
    let mut d = detect("GNOME");
    assert_eq!(d.plan, vec![Probe::ColorScheme, Probe::GtkTheme]);
    assert_eq!(d.action(), DarkModeAction::Run(Probe::ColorScheme));
    assert_eq!(d.answer(Some("''".to_string())), DarkModeAction::Run(Probe::GtkTheme));
    assert_eq!(d.answer(Some("'Yaru-dark'".to_string())), DarkModeAction::Finish(Some(true)));

    let mut d = detect("KDE");
    assert_eq!(d.plan.len(), 3);
    assert_eq!(d.action(), DarkModeAction::Run(Probe::KdeGlobals));
    assert_eq!(d.answer(None), DarkModeAction::Run(Probe::Qt6ctConfig));
    assert_eq!(d.answer(None), DarkModeAction::Run(Probe::Qt5ctConfig));
    assert_eq!(d.answer(None), DarkModeAction::Finish(None));

    let d = detect("sway");
    assert_eq!(d.plan.len(), 5);
    assert_eq!(d.plan[2], Probe::KdeGlobals);
}

#[test]
fn test_other_platforms() {
    assert_eq!(detect_from_registry(Some(0)), Some(true));
    assert_eq!(detect_from_registry(Some(1)), Some(false));
    assert_eq!(detect_from_registry(None), None);
    assert_eq!(detect_from_defaults(Some((true, b"Dark\n"))), Some(true));
    assert_eq!(detect_from_defaults(Some((false, b""))), Some(false));
    assert_eq!(detect_from_defaults(None), None);
    assert_eq!(fallback::detect(), None);
}
