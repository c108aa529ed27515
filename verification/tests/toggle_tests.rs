use kswitch::config::Config;
use kswitch::schedule::Time;
use kswitch::state::render_state;
use kswitch::target_theme;
use kswitch::theme::Theme;

fn at(h: u32, m: u32, s: u32) -> Time {
    Time::from_hms_opt(h, m, s).expect("time within one day")
}

#[test]
fn toggle_with_persisted_state_returns_opposite() {
    let config = Config::default();
    let dark_state = render_state(&Theme::Dark);
    let light_state = render_state(&Theme::Light);
    let now = at(10, 0, 0);
    assert_eq!(target_theme::get_at(&config, Some(dark_state.as_str()), &now), Theme::Light);
    assert_eq!(target_theme::get_at(&config, Some(light_state.as_str()), &now), Theme::Dark);
}

#[test]
fn toggle_without_state_follows_schedule() {
    let config = Config::default();
    // Default schedule at 10:00 says Light; toggle must aim for Light, not
    // its complement.
    assert_eq!(target_theme::get_at(&config, None, &at(10, 0, 0)), Theme::Light);
    assert_eq!(target_theme::get_at(&config, None, &at(21, 0, 0)), Theme::Dark);
}

#[test]
fn toggle_with_corrupt_state_follows_schedule() {
    let config = Config::default();
    assert_eq!(
        target_theme::get_at(&config, Some("current_theme = \"blue\""), &at(10, 0, 0)),
        Theme::Light
    );
    assert_eq!(target_theme::get_at(&config, Some("not toml at all"), &at(21, 0, 0)), Theme::Dark);
}

#[test]
fn toggle_now_returns_some_theme() {
    let config = Config::default();
    let picked = target_theme::get(&config, None);
    assert!(picked == Theme::Light || picked == Theme::Dark);
}

#[test]
fn schedule_now_returns_some_theme() {
    let config = Config::default();
    let picked = target_theme::get_theme_from_schedule(&config);
    assert!(picked == Theme::Light || picked == Theme::Dark);
}
