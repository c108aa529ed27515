use kswitch::config::Config;
use kswitch::operations::{plan, style_for};
use kswitch::state::render_state;
use kswitch::theme::Theme;

#[test]
fn plan_for_dark_uses_dark_style() {
    let config = Config::default();
    let p = plan(&Theme::Dark, &config);
    assert_eq!(p.desktop_theme, "breath-dark");
    assert_eq!(p.color_scheme, "BreathDark");
    assert_eq!(p.wallpaper, "/usr/share/wallpapers/Bamboo at Night/contents/images/5120x2880.png");
    assert_eq!(p.profile, "dark");
    assert_eq!(p.state_contents, render_state(&Theme::Dark));
    assert_eq!(p.hook_subdir, "dark");
}

#[test]
fn plan_for_light_uses_light_style() {
    let config = Config::default();
    let p = plan(&Theme::Light, &config);
    assert_eq!(p.desktop_theme, "breath");
    assert_eq!(p.color_scheme, "BreathLight");
    assert_eq!(p.wallpaper, "/usr/share/wallpapers/Bamboo/contents/images/5120x2880.png");
    assert_eq!(p.profile, "light");
    assert_eq!(p.state_contents, render_state(&Theme::Light));
    assert_eq!(p.hook_subdir, "light");
}

#[test]
fn style_for_selects_by_theme() {
    let config = Config::default();
    assert_eq!(style_for(&Theme::Light, &config), &config.light);
    assert_eq!(style_for(&Theme::Dark, &config), &config.dark);
}

#[test]
fn toggled_plan_persists_the_new_theme() {
    // Toggling away from a persisted Dark state aims for Light, and the
    // plan rewrites the state file to say so.
    let config = Config::default();
    let dark_state = render_state(&Theme::Dark);
    let now = kswitch::schedule::Time::from_hms_opt(10, 0, 0).expect("time within one day");
    let target = kswitch::target_theme::get_at(&config, Some(dark_state.as_str()), &now);
    assert_eq!(target, Theme::Light);
    let p = plan(&target, &config);
    assert_eq!(p.state_contents, "current_theme = \"light\"\n");
}

#[test]
fn default_config_paths_end_under_config_dir() {
    let config = Config::default();
    assert!(config.path.ends_with("/kswitch/config.toml"));
    assert!(config.konsolerc.ends_with("/konsolerc"));
    assert_eq!(config.schedule.windows.len(), 2);
}

#[test]
fn editor_fallback_is_nano() {
    assert_eq!(kswitch::config::editor_or_default(None), "nano");
    assert_eq!(kswitch::config::editor_or_default(Some("vim".to_string())), "vim");
}
