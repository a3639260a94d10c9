use fabric_shell::{parse_action, Action};

#[test]
fn every_navigation_name_the_ui_sends_is_understood() {
    for name in [
        "up", "down", "left", "right", "select", "back", "home", "tab_prev", "tab_next",
    ] {
        assert!(parse_action(name).is_some(), "{name} not handled");
    }
}

#[test]
fn unknown_navigation_names_are_rejected() {
    assert!(parse_action("sideways").is_none());
    assert!(parse_action("").is_none());
}

#[test]
fn each_name_maps_to_its_own_action() {
    assert_eq!(parse_action("up"), Some(Action::Up));
    assert_eq!(parse_action("down"), Some(Action::Down));
    assert_eq!(parse_action("left"), Some(Action::Left));
    assert_eq!(parse_action("right"), Some(Action::Right));
    assert_eq!(parse_action("select"), Some(Action::Select));
    assert_eq!(parse_action("back"), Some(Action::Back));
    assert_eq!(parse_action("home"), Some(Action::Home));
    assert_eq!(parse_action("tab_prev"), Some(Action::TabPrev));
    assert_eq!(parse_action("tab_next"), Some(Action::TabNext));
}

#[test]
fn names_are_matched_exactly() {
    assert_eq!(parse_action("Up"), None);
    assert_eq!(parse_action("up "), None);
    assert_eq!(parse_action("u"), None);
    assert_eq!(parse_action("tab_nex"), None);
    assert_eq!(parse_action("tab_nextt"), None);
    assert_eq!(parse_action("höme"), None);
}
