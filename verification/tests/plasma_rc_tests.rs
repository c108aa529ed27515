use kswitch::plasma_rc::{find_in_section, find_wallpaper_image, strip_file_scheme};

#[test]
fn finds_color_scheme_in_general_section() {
    let kdeglobals = "[KDE]\nSingleClick=false\n\n[General]\nColorScheme=BreathLight\nfont=Noto\n";
    assert_eq!(
        find_in_section(kdeglobals, "[General]", "ColorScheme="),
        Some("BreathLight".to_string())
    );
}

#[test]
fn finds_desktop_theme_in_theme_section() {
    let plasmarc = "[Theme]\nname=breath-dark\n\n[Wallpapers]\nusersWallpapers=\n";
    assert_eq!(find_in_section(plasmarc, "[Theme]", "name="), Some("breath-dark".to_string()));
}

#[test]
fn lookup_ignores_other_sections() {
    let contents = "[Other]\nColorScheme=Wrong\n[General]\nUnrelated=1\n";
    assert_eq!(find_in_section(contents, "[General]", "ColorScheme="), None);
}

#[test]
fn lookup_stops_at_next_section() {
    let contents = "[General]\nUnrelated=1\n[Next]\nColorScheme=Wrong\n";
    assert_eq!(find_in_section(contents, "[General]", "ColorScheme="), None);
}

#[test]
fn finds_wallpaper_image_value() {
    let appletsrc = "[Containments][1]\nplugin=org.kde.plasma.folder\n\n[Containments][1][Wallpaper][org.kde.image][General]\nImage=file:///usr/share/wallpapers/Bamboo\nSlidePaths=\n";
    assert_eq!(
        find_wallpaper_image(appletsrc),
        Some("file:///usr/share/wallpapers/Bamboo".to_string())
    );
}

#[test]
fn wallpaper_lookup_without_section_finds_nothing() {
    let appletsrc = "[Containments][1]\nImage=file:///nope\n";
    assert_eq!(find_wallpaper_image(appletsrc), None);
}

#[test]
fn strip_file_scheme_removes_prefix_once() {
    assert_eq!(strip_file_scheme("file:///usr/share/w.png"), "/usr/share/w.png");
    assert_eq!(strip_file_scheme("/usr/share/w.png"), "/usr/share/w.png");
    assert_eq!(strip_file_scheme(""), "");
}
