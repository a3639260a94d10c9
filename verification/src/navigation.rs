//! Names to actions.
//!
//! All navigation decisions live in [`crate::focus`]. This module only maps
//! the names a UI sends onto actions, so remapping a remote or adding a
//! gamepad does not touch the state machine.
use vstd::prelude::*;

use crate::focus::Action;

verus! {

/// The action a UI name stands for, if any.
pub open spec fn action_named(name: Seq<char>) -> Option<Action> {
    if name == "up"@ {
        Some(Action::Up)
    } else if name == "down"@ {
        Some(Action::Down)
    } else if name == "left"@ {
        Some(Action::Left)
    } else if name == "right"@ {
        Some(Action::Right)
    } else if name == "select"@ {
        Some(Action::Select)
    } else if name == "back"@ {
        Some(Action::Back)
    } else if name == "home"@ {
        Some(Action::Home)
    } else if name == "tab_prev"@ {
        Some(Action::TabPrev)
    } else if name == "tab_next"@ {
        Some(Action::TabNext)
    } else {
        None
    }
}

/// Whether two strings hold the same characters.
fn same_text(a: &str, b: &str) -> (r: bool)
    ensures
        r == (a@ == b@),
{
    let n = a.unicode_len();
    if n != b.unicode_len() {
        return false;
    }
    let mut i: usize = 0;
    while i < n
        invariant
            n == a@.len(),
            n == b@.len(),
            i <= n,
            forall|j: int| 0 <= j < i ==> a@[j] == b@[j],
        decreases n - i,
    {
        if a.get_char(i) != b.get_char(i) {
            return false;
        }
        i = i + 1;
    }
    assert(a@ =~= b@);
    true
}

/// Map the string the UI sends onto an action.
///
/// The UI deliberately sends names rather than key codes, so remapping a
/// remote or adding a gamepad does not require touching the state machine.
pub fn parse_action(name: &str) -> (r: Option<Action>)
    ensures
        r == action_named(name@),
{
    if same_text(name, "up") {
        Some(Action::Up)
    } else if same_text(name, "down") {
        Some(Action::Down)
    } else if same_text(name, "left") {
        Some(Action::Left)
    } else if same_text(name, "right") {
        Some(Action::Right)
    } else if same_text(name, "select") {
        Some(Action::Select)
    } else if same_text(name, "back") {
        Some(Action::Back)
    } else if same_text(name, "home") {
        Some(Action::Home)
    } else if same_text(name, "tab_prev") {
        Some(Action::TabPrev)
    } else if same_text(name, "tab_next") {
        Some(Action::TabNext)
    } else {
        None
    }
}

} // verus!
