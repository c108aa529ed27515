use kswitch::schedule::{Schedule, Time, Window};
use kswitch::theme::Theme;

fn at(h: u32, m: u32, s: u32) -> Time {
    Time::from_hms_opt(h, m, s).expect("time within one day")
}

#[test]
fn test_theme_from_time() {
    let schedule = Schedule::default();
    let cases = [
        (at(0, 0, 0), Theme::Dark),
        (at(10, 0, 0), Theme::Light),
        (at(21, 0, 0), Theme::Dark),
    ];
    for (time, theme) in cases {
        assert_eq!(schedule.theme_from_time(&time), theme);
    }
}

#[test]
fn default_schedule_lookup() {
    let schedule = Schedule::default();
    let cases = [
        (at(0, 0, 0), Theme::Dark),
        (at(6, 59, 59), Theme::Dark),
        (at(7, 0, 0), Theme::Light),
        (at(10, 0, 0), Theme::Light),
        (at(16, 59, 59), Theme::Light),
        (at(17, 0, 0), Theme::Dark),
        (at(21, 0, 0), Theme::Dark),
    ];
    for (time, theme) in cases {
        assert_eq!(schedule.theme_from_time(&time), theme);
    }
}

#[test]
fn three_window_schedule_lookup() {
    let schedule = Schedule {
        windows: vec![
            Window { theme: Theme::Light, start: at(6, 0, 0) },
            Window { theme: Theme::Dark, start: at(12, 0, 0) },
            Window { theme: Theme::Light, start: at(18, 0, 0) },
        ],
    };
    let cases = [
        (at(5, 59, 0), Theme::Light),
        (at(6, 0, 0), Theme::Light),
        (at(12, 0, 0), Theme::Dark),
        (at(17, 59, 0), Theme::Dark),
        (at(18, 0, 0), Theme::Light),
        (at(23, 59, 0), Theme::Light),
    ];
    for (time, theme) in cases {
        assert_eq!(schedule.theme_from_time(&time), theme);
    }
}

#[test]
fn single_window_schedule_always_returns_its_theme() {
    let schedule = Schedule {
        windows: vec![Window { theme: Theme::Dark, start: at(9, 30, 0) }],
    };
    for time in [at(0, 0, 0), at(9, 29, 59), at(9, 30, 0), at(23, 59, 59)] {
        assert_eq!(schedule.theme_from_time(&time), Theme::Dark);
    }
}

#[test]
fn unsorted_windows_are_handled() {
    let schedule = Schedule {
        windows: vec![
            Window { theme: Theme::Dark, start: at(17, 0, 0) },
            Window { theme: Theme::Light, start: at(7, 0, 0) },
        ],
    };
    assert_eq!(schedule.theme_from_time(&at(8, 0, 0)), Theme::Light);
    assert_eq!(schedule.theme_from_time(&at(3, 0, 0)), Theme::Dark);
    assert_eq!(schedule.theme_from_time(&at(18, 0, 0)), Theme::Dark);
}

#[test]
fn from_hms_opt_checks_ranges() {
    assert!(Time::from_hms_opt(23, 59, 59).is_some());
    assert!(Time::from_hms_opt(24, 0, 0).is_none());
    assert!(Time::from_hms_opt(0, 60, 0).is_none());
    assert!(Time::from_hms_opt(0, 0, 60).is_none());
    let t = at(7, 30, 15);
    assert_eq!((t.hour, t.minute, t.second), (7, 30, 15));
}

#[test]
fn as_secs_counts_from_midnight() {
    assert_eq!(at(0, 0, 0).as_secs(), 0);
    assert_eq!(at(1, 2, 3).as_secs(), 3723);
    assert_eq!(at(23, 59, 59).as_secs(), 86399);
}

#[test]
fn time_parse_and_render() {
    assert_eq!(Time::parse("07:00:00"), Some(at(7, 0, 0)));
    assert_eq!(Time::parse("23:59:59"), Some(at(23, 59, 59)));
    assert_eq!(Time::parse("24:00:00"), None);
    assert_eq!(Time::parse("07:60:00"), None);
    assert_eq!(Time::parse("7:00:00"), None);
    assert_eq!(Time::parse("07:00"), None);
    assert_eq!(Time::parse("ab:cd:ef"), None);
    assert_eq!(at(7, 0, 0).render(), "07:00:00");
    assert_eq!(at(23, 59, 59).render(), "23:59:59");
    for t in [at(0, 0, 0), at(9, 8, 7), at(17, 45, 30)] {
        assert_eq!(Time::parse(t.render().as_str()), Some(t));
    }
}

#[test]
fn default_schedule_windows() {
    let schedule = Schedule::default();
    assert_eq!(schedule.windows.len(), 2);
    assert_eq!(schedule.windows[0], Window { theme: Theme::Light, start: at(7, 0, 0) });
    assert_eq!(schedule.windows[1], Window { theme: Theme::Dark, start: at(17, 0, 0) });
}
