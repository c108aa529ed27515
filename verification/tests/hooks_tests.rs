use kswitch::hooks::{hook_dir, sort_names, str_le};
use kswitch::theme::Theme;

#[test]
fn str_le_orders_lexicographically() {
    assert!(str_le("a", "b"));
    assert!(!str_le("b", "a"));
    assert!(str_le("abc", "abc"));
    assert!(str_le("ab", "abc"));
    assert!(!str_le("abc", "ab"));
    assert!(str_le("", "anything"));
    assert!(str_le("10-first", "20-second"));
}

#[test]
fn sort_names_orders_hook_scripts() {
    let names = vec![
        "20-wallpaper-extras".to_string(),
        "10-notify".to_string(),
        "30-editor-theme".to_string(),
        "10-notify".to_string(),
    ];
    let sorted = sort_names(&names);
    assert_eq!(
        sorted,
        vec![
            "10-notify".to_string(),
            "10-notify".to_string(),
            "20-wallpaper-extras".to_string(),
            "30-editor-theme".to_string(),
        ]
    );
}

#[test]
fn sort_names_of_empty_list_is_empty() {
    let names: Vec<String> = vec![];
    assert_eq!(sort_names(&names), Vec::<String>::new());
}

#[test]
fn hook_dir_is_per_theme() {
    assert_eq!(hook_dir("/home/u/.config", &Theme::Dark), "/home/u/.config/kswitch/dark");
    assert_eq!(hook_dir("/home/u/.config", &Theme::Light), "/home/u/.config/kswitch/light");
}
