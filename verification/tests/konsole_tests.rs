use kswitch::konsole::{filter_konsole_names, is_konsole_name, profile_line, update_default_profile};
use kswitch::theme::Theme;

#[test]
fn profile_line_names_the_theme() {
    assert_eq!(profile_line(&Theme::Light), "DefaultProfile=light.profile");
    assert_eq!(profile_line(&Theme::Dark), "DefaultProfile=dark.profile");
}

#[test]
fn update_rewrites_profile_in_desktop_entry() {
    let rc = "[Desktop Entry]\nDefaultProfile=light.profile\n\n[MainWindow]\nHeight=900\n";
    let out = update_default_profile(rc, &Theme::Dark);
    assert_eq!(out, "[Desktop Entry]\nDefaultProfile=dark.profile\n\n[MainWindow]\nHeight=900\n");
}

#[test]
fn update_leaves_other_sections_alone() {
    let rc = "[Other]\nDefaultProfile=keep.profile\n[Desktop Entry]\nDefaultProfile=old.profile\n";
    let out = update_default_profile(rc, &Theme::Light);
    assert_eq!(
        out,
        "[Other]\nDefaultProfile=keep.profile\n[Desktop Entry]\nDefaultProfile=light.profile\n"
    );
}

#[test]
fn update_without_entry_changes_nothing_but_line_endings() {
    let rc = "[Desktop Entry]\nMenuBar=Disabled\n";
    let out = update_default_profile(rc, &Theme::Dark);
    assert_eq!(out, rc);
}

#[test]
fn update_handles_indented_entries() {
    let rc = "[Desktop Entry]\n  DefaultProfile=old.profile\n";
    let out = update_default_profile(rc, &Theme::Dark);
    assert_eq!(out, "[Desktop Entry]\nDefaultProfile=dark.profile\n");
}

#[test]
fn konsole_name_filter_matches_service_names() {
    assert!(is_konsole_name("org.kde.konsole-12345"));
    assert!(is_konsole_name(":1.42 org.kde.konsole"));
    assert!(!is_konsole_name("org.kde.plasmashell"));
    assert!(!is_konsole_name(""));
}

#[test]
fn filter_keeps_only_konsole_names_in_order() {
    let names = vec![
        "org.freedesktop.DBus".to_string(),
        "org.kde.konsole-1001".to_string(),
        "org.kde.plasmashell".to_string(),
        "org.kde.konsole-2002".to_string(),
    ];
    let filtered = filter_konsole_names(&names);
    assert_eq!(
        filtered,
        vec!["org.kde.konsole-1001".to_string(), "org.kde.konsole-2002".to_string()]
    );
}
