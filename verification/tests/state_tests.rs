use kswitch::state::{load_from, parse_state, render_state, StateError, StateManager, ThemeState};
use kswitch::theme::Theme;

#[test]
fn render_state_writes_single_entry() {
    assert_eq!(render_state(&Theme::Light), "current_theme = \"light\"\n");
    assert_eq!(render_state(&Theme::Dark), "current_theme = \"dark\"\n");
}

#[test]
fn state_round_trips_through_render_and_parse() {
    for t in [Theme::Light, Theme::Dark] {
        let contents = render_state(&t);
        let loaded = parse_state(contents.as_str()).expect("rendered state parses");
        assert_eq!(loaded, ThemeState { current_theme: t });
    }
}

#[test]
fn parse_accepts_plain_entry() {
    let st = parse_state("current_theme = \"dark\"").expect("entry parses");
    assert_eq!(st.current_theme, Theme::Dark);
}

#[test]
fn parse_is_case_insensitive_in_value() {
    let st = parse_state("current_theme = \"Dark\"").expect("entry parses");
    assert_eq!(st.current_theme, Theme::Dark);
}

#[test]
fn parse_tolerates_surrounding_whitespace() {
    let st = parse_state("  current_theme   =   \"light\"  \n\n").expect("entry parses");
    assert_eq!(st.current_theme, Theme::Light);
}

#[test]
fn parse_rejects_corrupt_contents() {
    for bad in [
        "",
        "current_theme",
        "current_theme = ",
        "current_theme = \"blue\"",
        "current_theme = \"light",
        "current_theme = \"light\" trailing",
        "other_key = \"light\"",
        "current_themes = \"light\"",
    ] {
        assert_eq!(parse_state(bad), Err(StateError::Corrupt));
    }
}

#[test]
fn load_from_contents_parses_them() {
    let contents = render_state(&Theme::Dark);
    let loaded = load_from(Some(contents.as_str())).expect("state loads");
    assert_eq!(loaded.current_theme, Theme::Dark);
}

#[test]
fn test_state_manager_default_when_no_file() {
    let loaded = load_from(None);
    assert!(loaded.is_ok(), "Should return Ok with default theme");
    let state = loaded.unwrap();
    assert_eq!(state.current_theme, Theme::Light);
}

#[test]
fn state_manager_points_under_config_dir() {
    let manager = StateManager::new().expect("a config directory exists here");
    assert!(manager.state_path.ends_with("/kswitch/state.toml"));
}
