//! The mathematical model of the focus state machine.
//!
//! A [`FocusView`] is what a `FocusModel` means: the zone, the selected tab,
//! and the remembered item index of every tab. Each action is a function from
//! a view and the tabs' current shapes to a new view and an [`Outcome`].
use vstd::prelude::*;

use crate::focus::{Action, Layout, Outcome, Tab, Zone};

verus! {

/// The abstract state of a focus model.
pub struct FocusView {
    pub zone: Zone,
    pub tab: usize,
    /// Remembered content index per tab.
    pub indices: Seq<usize>,
}

impl Tab {
    /// Columns used for movement: at least one.
    pub open spec fn column_count(self) -> usize {
        match self.layout {
            Layout::Row => if self.len >= 1 { self.len } else { 1 },
            Layout::Grid { columns } => if columns >= 1 { columns } else { 1 },
            Layout::Empty => 1,
        }
    }

    /// A tab can hold focus when it has items and a layout that shows them.
    pub open spec fn focusable(self) -> bool {
        self.len > 0 && !(self.layout is Empty)
    }

    /// The greatest index focus may rest on (zero for an empty tab).
    pub open spec fn last_index(self) -> usize {
        if self.len == 0 { 0 } else { (self.len - 1) as usize }
    }
}

impl FocusView {
    /// The remembered index of tab `t`; zero for a tab never recorded.
    pub open spec fn index_of(self, t: int) -> usize {
        if 0 <= t < self.indices.len() {
            self.indices[t]
        } else {
            0
        }
    }

    /// The focused item within the selected tab.
    pub open spec fn index(self) -> usize {
        self.index_of(self.tab as int)
    }

    pub open spec fn with_zone(self, zone: Zone) -> FocusView {
        FocusView { zone, tab: self.tab, indices: self.indices }
    }

    pub open spec fn with_tab(self, tab: usize) -> FocusView {
        FocusView { zone: self.zone, tab, indices: self.indices }
    }

    /// Record `index` for the selected tab, when the tab has a slot.
    pub open spec fn with_index(self, index: usize) -> FocusView {
        FocusView {
            zone: self.zone,
            tab: self.tab,
            indices: if self.tab < self.indices.len() {
                self.indices.update(self.tab as int, index)
            } else {
                self.indices
            },
        }
    }

    /// Give at least `n` tabs a slot, new slots remembering index zero.
    pub open spec fn grown(self, n: nat) -> FocusView {
        FocusView {
            zone: self.zone,
            tab: self.tab,
            indices: if self.indices.len() < n {
                self.indices + Seq::new((n - self.indices.len()) as nat, |_i: int| 0usize)
            } else {
                self.indices
            },
        }
    }

    /// Pull the selected tab's index back inside that tab's current bounds.
    pub open spec fn clamped(self, tabs: Seq<Tab>) -> FocusView {
        if self.tab < tabs.len() && self.index() > tabs[self.tab as int].last_index() {
            self.with_index(tabs[self.tab as int].last_index())
        } else {
            self
        }
    }

    /// The zone a freshly selected tab offers: its content when it can hold
    /// focus, otherwise the tab bar.
    pub open spec fn entry_zone(t: Tab) -> Zone {
        if t.focusable() {
            Zone::Content
        } else {
            Zone::TabBar
        }
    }

    /// What every action first does to the state: a selected tab that no
    /// longer exists falls back to the first, every tab gets a slot, and the
    /// selected tab's index is clamped.
    pub open spec fn normalized(self, tabs: Seq<Tab>) -> FocusView {
        let s = if self.tab >= tabs.len() {
            self.with_tab(0)
        } else {
            self
        };
        s.grown(tabs.len()).clamped(tabs)
    }

    /// Whether focus is already home: the first tab's first item, in its
    /// content or, when that tab cannot hold focus, on the bar.
    pub open spec fn is_home(self, tabs: Seq<Tab>) -> bool {
        &&& self.tab == 0
        &&& self.index() == 0
        &&& (self.zone == Zone::Content || self.zone == Self::entry_zone(tabs[0]))
    }

    /// Home: the first tab's first item, in the zone that tab offers; ignored
    /// when focus is already home.
    pub open spec fn home_step(self, tabs: Seq<Tab>) -> (FocusView, Outcome) {
        if self.is_home(tabs) {
            (self, Outcome::Ignored)
        } else {
            (self.with_tab(0).with_index(0).with_zone(Self::entry_zone(tabs[0])), Outcome::Moved)
        }
    }

    /// Back: content steps out to the tab bar; the tab bar steps back to the
    /// first tab; the first tab with focus on the bar asks to exit.
    pub open spec fn back_step(self, tabs: Seq<Tab>) -> (FocusView, Outcome) {
        match self.zone {
            Zone::Content => (self.with_zone(Zone::TabBar), Outcome::Moved),
            Zone::TabBar => if self.tab != 0 {
                (self.with_tab(0).clamped(tabs), Outcome::Moved)
            } else {
                (self, Outcome::ExitRequested)
            },
        }
    }

    /// Select: on the bar it enters a focusable tab; in content it activates
    /// the focused item.
    pub open spec fn select_step(self, tabs: Seq<Tab>) -> (FocusView, Outcome) {
        if !tabs[self.tab as int].focusable() {
            (self, Outcome::Ignored)
        } else {
            match self.zone {
                Zone::TabBar => (self.with_zone(Zone::Content), Outcome::Moved),
                Zone::Content => (self, Outcome::Activated { tab: self.tab, index: self.index() }),
            }
        }
    }

    /// Land on tab `target` from a tab switch: clamp its remembered index,
    /// and leave content for the bar when the target cannot hold focus.
    pub open spec fn arrive(self, target: usize, tabs: Seq<Tab>) -> FocusView {
        let s = self.with_tab(target).clamped(tabs);
        if s.zone == Zone::Content && !tabs[target as int].focusable() {
            s.with_zone(Zone::TabBar)
        } else {
            s
        }
    }

    /// TabPrev / TabNext: move `delta` tabs along, clamped at both ends
    /// rather than wrapping.
    pub open spec fn switch_step(self, delta: int, tabs: Seq<Tab>) -> (FocusView, Outcome) {
        let target = self.tab + delta;
        if 0 <= target < tabs.len() {
            (self.arrive(target as usize, tabs), Outcome::Moved)
        } else {
            (self, Outcome::Ignored)
        }
    }

    /// Directions on the tab bar: left/right change tab without entering
    /// it, down enters a focusable tab, up is the top of the interface.
    pub open spec fn tab_bar_step(self, action: Action, tabs: Seq<Tab>) -> (FocusView, Outcome) {
        match action {
            Action::Left => if self.tab > 0 {
                (self.with_tab((self.tab - 1) as usize).clamped(tabs), Outcome::Moved)
            } else {
                (self, Outcome::Ignored)
            },
            Action::Right => if self.tab + 1 < tabs.len() {
                (self.with_tab((self.tab + 1) as usize).clamped(tabs), Outcome::Moved)
            } else {
                (self, Outcome::Ignored)
            },
            Action::Down => if tabs[self.tab as int].focusable() {
                (self.with_zone(Zone::Content), Outcome::Moved)
            } else {
                (self, Outcome::Ignored)
            },
            _ => (self, Outcome::Ignored),
        }
    }

    /// Directions in content. An unfocusable tab only lets Up out. In a
    /// focusable tab, left/right move within the row and stop at its ends,
    /// up moves a row or leaves for the bar from the first row, and down
    /// moves a row, clamping into a short last row.
    pub open spec fn content_step(self, action: Action, tabs: Seq<Tab>) -> (FocusView, Outcome) {
        let t = tabs[self.tab as int];
        if !t.focusable() {
            if action == Action::Up {
                (self.with_zone(Zone::TabBar), Outcome::Moved)
            } else {
                (self, Outcome::Ignored)
            }
        } else {
            let c = t.column_count() as int;
            let i = self.index() as int;
            let row = i / c;
            let column = i % c;
            let last_row = (t.len - 1) / c;
            match action {
                Action::Left => if column > 0 {
                    (self.with_index((i - 1) as usize), Outcome::Moved)
                } else {
                    (self, Outcome::Ignored)
                },
                Action::Right => if column + 1 < c && i + 1 < t.len {
                    (self.with_index((i + 1) as usize), Outcome::Moved)
                } else {
                    (self, Outcome::Ignored)
                },
                Action::Up => if row == 0 {
                    (self.with_zone(Zone::TabBar), Outcome::Moved)
                } else {
                    (self.with_index((i - c) as usize), Outcome::Moved)
                },
                Action::Down => if row < last_row {
                    let below = if i + c < t.len - 1 { i + c } else { t.len - 1 };
                    (self.with_index(below as usize), Outcome::Moved)
                } else {
                    (self, Outcome::Ignored)
                },
                _ => (self, Outcome::Ignored),
            }
        }
    }

    /// One action against the tabs' current shapes: the new state and what
    /// the caller should do. With no tabs at all nothing happens.
    pub open spec fn step(self, action: Action, tabs: Seq<Tab>) -> (FocusView, Outcome) {
        if tabs.len() == 0 {
            (self, Outcome::Ignored)
        } else {
            let s = self.normalized(tabs);
            match action {
                Action::Home => s.home_step(tabs),
                Action::Back => s.back_step(tabs),
                Action::Select => s.select_step(tabs),
                Action::TabPrev => s.switch_step(-1, tabs),
                Action::TabNext => s.switch_step(1, tabs),
                _ => match s.zone {
                    Zone::TabBar => s.tab_bar_step(action, tabs),
                    Zone::Content => s.content_step(action, tabs),
                },
            }
        }
    }

    /// A pointer click on item `index` of tab `tab`: focus goes straight
    /// there, into content, when the item exists; otherwise nothing changes.
    pub open spec fn item_clicked(self, tab: usize, index: usize, tabs: Seq<Tab>) -> (FocusView, Outcome) {
        if tab < tabs.len() && index < tabs[tab as int].len {
            (
                self.grown(tabs.len()).with_tab(tab).with_zone(Zone::Content).with_index(index),
                Outcome::Moved,
            )
        } else {
            (self, Outcome::Ignored)
        }
    }

    /// A pointer click on tab `tab` in the tab bar: the tab is selected, its
    /// content entered only when it can hold focus, and its remembered index
    /// clamped; a tab that does not exist changes nothing.
    pub open spec fn tab_clicked(self, tab: usize, tabs: Seq<Tab>) -> (FocusView, Outcome) {
        if tab < tabs.len() {
            (
                self.grown(tabs.len()).with_tab(tab).with_zone(Self::entry_zone(tabs[tab as int])).clamped(
                    tabs,
                ),
                Outcome::Moved,
            )
        } else {
            (self, Outcome::Ignored)
        }
    }

    /// Re-settle focus against new tab shapes: every tab gets a slot, the
    /// selected tab's index is clamped, and content focus on a tab that
    /// cannot hold it moves to the bar. With no tabs nothing changes.
    pub open spec fn reconciled(self, tabs: Seq<Tab>) -> FocusView {
        if tabs.len() == 0 {
            self
        } else {
            let s = self.grown(tabs.len()).clamped(tabs);
            if s.zone == Zone::Content && !(s.tab < tabs.len() && tabs[s.tab as int].focusable()) {
                s.with_zone(Zone::TabBar)
            } else {
                s
            }
        }
    }
}

} // verus!
