use kswitch::theme::Theme;

#[test]
fn parse_canonical_names() {
    assert_eq!(Theme::from_str("light"), Ok(Theme::Light));
    assert_eq!(Theme::from_str("dark"), Ok(Theme::Dark));
}

#[test]
fn parse_is_case_insensitive() {
    assert_eq!(Theme::from_str("Light"), Ok(Theme::Light));
    assert_eq!(Theme::from_str("LIGHT"), Ok(Theme::Light));
    assert_eq!(Theme::from_str("lIgHt"), Ok(Theme::Light));
    assert_eq!(Theme::from_str("Dark"), Ok(Theme::Dark));
    assert_eq!(Theme::from_str("DARK"), Ok(Theme::Dark));
}

#[test]
fn parse_rejects_other_input() {
    assert_eq!(Theme::from_str(""), Err(()));
    assert_eq!(Theme::from_str("blue"), Err(()));
    assert_eq!(Theme::from_str("lightt"), Err(()));
    assert_eq!(Theme::from_str("light "), Err(()));
    assert_eq!(Theme::from_str("darkness"), Err(()));
}

#[test]
fn to_string_gives_lowercase_names() {
    assert_eq!(Theme::Light.to_string(), "light");
    assert_eq!(Theme::Dark.to_string(), "dark");
}

#[test]
fn parse_round_trips_to_string() {
    for t in [Theme::Light, Theme::Dark] {
        assert_eq!(Theme::from_str(t.to_string().as_str()), Ok(t));
    }
}

#[test]
fn opposite_flips_and_returns() {
    assert_eq!(Theme::Light.opposite(), Theme::Dark);
    assert_eq!(Theme::Dark.opposite(), Theme::Light);
    assert_eq!(Theme::Light.opposite().opposite(), Theme::Light);
}
