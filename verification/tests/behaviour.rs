use fabric_shell::{driving_device, Action, FocusModel, Layout, Outcome, Tab, Zone};

fn shell() -> Vec<Tab> {
    vec![
        Tab::new(Layout::Row, 5),
        Tab::new(Layout::Grid { columns: 3 }, 7),
        Tab::new(Layout::Grid { columns: 3 }, 2),
        Tab::new(Layout::Empty, 0),
    ]
}

fn run(m: &mut FocusModel, actions: &[Action], tabs: &[Tab]) {
    for a in actions {
        m.handle(*a, tabs);
    }
}

#[test]
fn a_new_model_always_has_a_slot() {
    let m = FocusModel::new(0);
    assert_eq!(m.tab(), 0);
    assert_eq!(m.index(), 0);
    assert_eq!(m.index_of(0), 0);
    assert_eq!(m.index_of(7), 0);
    assert_eq!(m.zone(), Zone::Content);
}

#[test]
fn columns_of_a_row_let_right_walk_the_whole_row() {
    let tabs = vec![Tab::new(Layout::Row, 3)];
    let mut m = FocusModel::new(1);
    assert_eq!(m.handle(Action::Right, &tabs), Outcome::Moved);
    assert_eq!(m.handle(Action::Right, &tabs), Outcome::Moved);
    assert_eq!(m.index(), 2);
    assert_eq!(m.handle(Action::Right, &tabs), Outcome::Ignored);
}

#[test]
fn left_and_right_keep_the_row_in_a_grid() {
    let tabs = vec![Tab::new(Layout::Grid { columns: 3 }, 7)];
    let mut m = FocusModel::new(1);
    run(&mut m, &[Action::Down], &tabs);
    assert_eq!(m.index(), 3);
    assert_eq!(m.handle(Action::Left, &tabs), Outcome::Ignored);
    assert_eq!(m.index(), 3, "column 0 of row 1 does not step back to row 0");
    run(&mut m, &[Action::Right, Action::Right], &tabs);
    assert_eq!(m.index(), 5);
    assert_eq!(m.handle(Action::Right, &tabs), Outcome::Ignored);
    assert_eq!(m.index(), 5);
}

#[test]
fn down_lands_on_the_last_item_of_a_short_row_from_any_column() {
    let tabs = vec![Tab::new(Layout::Grid { columns: 4 }, 6)];
    let mut m = FocusModel::new(1);
    run(&mut m, &[Action::Right, Action::Right, Action::Right], &tabs);
    assert_eq!(m.index(), 3);
    assert_eq!(m.handle(Action::Down, &tabs), Outcome::Moved);
    assert_eq!(m.index(), 5);
    assert_eq!(m.handle(Action::Down, &tabs), Outcome::Ignored);
}

#[test]
fn up_from_a_lower_row_moves_exactly_one_row() {
    let tabs = vec![Tab::new(Layout::Grid { columns: 2 }, 6)];
    let mut m = FocusModel::new(1);
    run(&mut m, &[Action::Right, Action::Down, Action::Down], &tabs);
    assert_eq!(m.index(), 5);
    assert_eq!(m.handle(Action::Up, &tabs), Outcome::Moved);
    assert_eq!(m.index(), 3);
    assert_eq!(m.zone(), Zone::Content);
}

#[test]
fn back_on_the_first_tab_bar_asks_to_exit_and_changes_nothing() {
    let mut m = FocusModel::new(4);
    run(&mut m, &[Action::Right, Action::Right, Action::Back], &shell());
    assert_eq!(m.handle(Action::Back, &shell()), Outcome::ExitRequested);
    assert_eq!(m.tab(), 0);
    assert_eq!(m.index(), 2);
    assert_eq!(m.zone(), Zone::TabBar);
}

#[test]
fn back_from_another_tab_keeps_that_tabs_position() {
    let mut m = FocusModel::new(4);
    run(&mut m, &[Action::TabNext, Action::Down, Action::Back], &shell());
    assert_eq!(m.handle(Action::Back, &shell()), Outcome::Moved);
    assert_eq!(m.tab(), 0);
    assert_eq!(m.zone(), Zone::TabBar);
    assert_eq!(m.index_of(1), 3);
}

#[test]
fn home_from_the_first_tabs_bar_enters_its_content() {
    let mut m = FocusModel::new(4);
    run(&mut m, &[Action::Right, Action::Up], &shell());
    assert_eq!(m.handle(Action::Home, &shell()), Outcome::Moved);
    assert_eq!(m.zone(), Zone::Content);
    assert_eq!(m.index(), 0);
}

#[test]
fn home_to_an_empty_first_tab_stops_on_the_bar() {
    let tabs = vec![Tab::new(Layout::Empty, 0), Tab::new(Layout::Row, 2)];
    let mut m = FocusModel::new(2);
    assert_eq!(m.focus_on(1, 1, &tabs), Outcome::Moved);
    assert_eq!(m.handle(Action::Home, &tabs), Outcome::Moved);
    assert_eq!(m.tab(), 0);
    assert_eq!(m.zone(), Zone::TabBar);
}

#[test]
fn select_on_an_empty_tab_in_content_is_ignored() {
    let tabs = vec![Tab::new(Layout::Row, 0)];
    let mut m = FocusModel::new(1);
    assert_eq!(m.handle(Action::Select, &tabs), Outcome::Ignored);
    assert_eq!(m.zone(), Zone::Content);
}

#[test]
fn activation_names_the_focused_item_of_a_grid() {
    let mut m = FocusModel::new(4);
    assert_eq!(m.focus_on(1, 4, &shell()), Outcome::Moved);
    assert_eq!(
        m.handle(Action::Select, &shell()),
        Outcome::Activated { tab: 1, index: 4 }
    );
}

#[test]
fn a_stale_tab_falls_back_to_the_first() {
    let mut m = FocusModel::new(4);
    assert_eq!(m.focus_on(3, 0, &vec![Tab::new(Layout::Row, 1); 4]), Outcome::Moved);
    assert_eq!(m.tab(), 3);
    let two = vec![Tab::new(Layout::Row, 5), Tab::new(Layout::Row, 5)];
    assert_eq!(m.handle(Action::Right, &two), Outcome::Moved);
    assert_eq!(m.tab(), 0);
    assert_eq!(m.index(), 1);
}

#[test]
fn switching_tabs_clamps_the_target_tabs_index() {
    let mut m = FocusModel::new(2);
    let wide = vec![Tab::new(Layout::Row, 5), Tab::new(Layout::Row, 9)];
    assert_eq!(m.focus_on(1, 8, &wide), Outcome::Moved);
    let narrow = vec![Tab::new(Layout::Row, 5), Tab::new(Layout::Row, 3)];
    assert_eq!(m.handle(Action::TabPrev, &narrow), Outcome::Moved);
    assert_eq!(m.handle(Action::TabNext, &narrow), Outcome::Moved);
    assert_eq!(m.index(), 2);
}

#[test]
fn focus_on_grows_the_slots_for_a_larger_tab_list() {
    let mut m = FocusModel::new(1);
    assert_eq!(m.focus_on(3, 0, &vec![Tab::new(Layout::Row, 1); 4]), Outcome::Moved);
    assert_eq!(m.index_of(3), 0);
    assert_eq!(m.index_of(0), 0);
    assert_eq!(m.tab(), 3);
}

#[test]
fn focus_tab_out_of_range_changes_nothing() {
    let mut m = FocusModel::new(4);
    run(&mut m, &[Action::Right], &shell());
    assert_eq!(m.focus_tab(4, &shell()), Outcome::Ignored);
    assert_eq!(m.tab(), 0);
    assert_eq!(m.index(), 1);
    assert_eq!(m.zone(), Zone::Content);
}

#[test]
fn focus_tab_clamps_a_remembered_index() {
    let mut m = FocusModel::new(2);
    let wide = vec![Tab::new(Layout::Row, 5), Tab::new(Layout::Row, 9)];
    assert_eq!(m.focus_on(1, 8, &wide), Outcome::Moved);
    m.handle(Action::TabPrev, &wide);
    let narrow = vec![Tab::new(Layout::Row, 5), Tab::new(Layout::Row, 4)];
    assert_eq!(m.focus_tab(1, &narrow), Outcome::Moved);
    assert_eq!(m.index(), 3);
}

#[test]
fn reconcile_twice_is_the_same_as_once() {
    let mut m = FocusModel::new(4);
    run(&mut m, &[Action::TabNext, Action::TabNext, Action::Right], &shell());
    let mut emptied = shell();
    emptied[2] = Tab::new(Layout::Grid { columns: 3 }, 0);
    m.reconcile(&emptied);
    let (zone, tab, index) = (m.zone(), m.tab(), m.index());
    m.reconcile(&emptied);
    assert_eq!((m.zone(), m.tab(), m.index()), (zone, tab, index));
    assert_eq!(zone, Zone::TabBar);
    assert_eq!(index, 0);
}

#[test]
fn reconcile_with_a_stale_tab_lifts_focus_to_the_bar() {
    let mut m = FocusModel::new(4);
    assert_eq!(m.focus_on(3, 0, &vec![Tab::new(Layout::Row, 1); 4]), Outcome::Moved);
    m.reconcile(&[Tab::new(Layout::Row, 2)]);
    assert_eq!(m.tab(), 3);
    assert_eq!(m.zone(), Zone::TabBar);
}

#[test]
fn the_first_connected_device_drives_the_interface() {
    assert_eq!(driving_device(&[]), None);
    assert_eq!(driving_device(&[1, 3]), Some(1));
    assert_eq!(driving_device(&[4]), Some(4));
}

#[test]
fn home_when_already_home_on_an_empty_first_tab_is_ignored() {
    let tabs = vec![Tab::new(Layout::Empty, 0), Tab::new(Layout::Row, 3)];
    let mut m = FocusModel::new(2);
    assert_eq!(m.handle(Action::Up, &tabs), Outcome::Moved);
    assert_eq!((m.zone(), m.tab(), m.index()), (Zone::TabBar, 0, 0));
    assert_eq!(m.handle(Action::Home, &tabs), Outcome::Ignored);
    assert_eq!((m.zone(), m.tab(), m.index()), (Zone::TabBar, 0, 0));
}

#[test]
fn next_tab_and_back_returns_to_the_same_item() {
    let mut m = FocusModel::new(4);
    run(&mut m, &[Action::Right, Action::Right], &shell());
    assert_eq!(m.handle(Action::TabNext, &shell()), Outcome::Moved);
    assert_eq!(m.handle(Action::TabPrev, &shell()), Outcome::Moved);
    assert_eq!(m.tab(), 0);
    assert_eq!(m.index(), 2);
    assert_eq!(m.index_of(2), 0);
}

#[test]
fn home_in_an_empty_first_tabs_content_is_ignored() {
    let tabs = vec![Tab::new(Layout::Empty, 0), Tab::new(Layout::Row, 3)];
    let mut m = FocusModel::new(2);
    assert_eq!(m.handle(Action::Home, &tabs), Outcome::Ignored);
    assert_eq!((m.zone(), m.tab(), m.index()), (Zone::Content, 0, 0));
}
