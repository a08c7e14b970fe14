use brew_tray::events::{menu_action, same_chars, starts_with, MenuAction};
use brew_tray::text::chars_of;

#[test]
fn fixed_actions_are_recognised() {
    assert_eq!(menu_action("open_app"), MenuAction::OpenApp);
    assert_eq!(menu_action("quit"), MenuAction::Quit);
}

#[test]
fn bean_row_asks_to_show_the_bean() {
    assert_eq!(menu_action("bean:abc-123"), MenuAction::Navigate("abc-123".to_string()));
    assert_eq!(menu_action("bean:"), MenuAction::Navigate(String::new()));
    assert_eq!(menu_action("bean:bean:x"), MenuAction::Navigate("bean:x".to_string()));
    assert_eq!(menu_action("bean:云南 小粒"), MenuAction::Navigate("云南 小粒".to_string()));
}

#[test]
fn rows_that_only_inform_do_nothing() {
    for id in ["stat_count", "stat_capacity", "empty", "loading"] {
        assert_eq!(menu_action(id), MenuAction::Ignore, "{id}");
    }
}

#[test]
fn unknown_identifiers_do_nothing() {
    for id in ["", "bean", "Bean:x", " bean:x", "open_app ", "QUIT", "quit\n", "bea:n"] {
        assert_eq!(menu_action(id), MenuAction::Ignore, "{id:?}");
    }
}

#[test]
fn chars_of_gives_every_character() {
    assert_eq!(chars_of("a豆…"), vec!['a', '豆', '…']);
    assert!(chars_of("").is_empty());
}

#[test]
fn same_chars_compares_whole_texts() {
    assert!(same_chars(&chars_of("abc"), &chars_of("abc")));
    assert!(same_chars(&vec![], &vec![]));
    assert!(!same_chars(&chars_of("abc"), &chars_of("abd")));
    assert!(!same_chars(&chars_of("abc"), &chars_of("ab")));
}

#[test]
fn starts_with_looks_at_the_front_only() {
    assert!(starts_with(&chars_of("bean:x"), &chars_of("bean:")));
    assert!(starts_with(&chars_of("bean:"), &chars_of("bean:")));
    assert!(starts_with(&chars_of("x"), &chars_of("")));
    assert!(!starts_with(&chars_of("bean"), &chars_of("bean:")));
    assert!(!starts_with(&chars_of("xbean:"), &chars_of("bean:")));
}
