//! The focus state machine: zones, tabs, indices, and what each action does.
//!
//! Nothing here draws anything. The model works entirely in zones, tab
//! indices and item indices, and every transition is stated against the
//! spec functions in [`crate::model`].
//!
//! Deliberate behaviours, each one a contract or a law of this crate:
//!
//! - Focus clamps, it does not wrap.
//! - Left/right stay on their row in a grid; row changes are up/down only.
//! - Down into a short last row lands on the last item.
//! - Each tab remembers where focus was.
//! - Up from the first row reaches the tab bar.
//! - Lists change underneath focus; `reconcile` re-settles it.
use vstd::prelude::*;

use crate::model::FocusView;

verus! {

/// Which band of the interface currently holds focus.
#[derive(Debug, Clone, Copy, PartialEq, Eq, Structural)]
pub enum Zone {
    /// The row of tabs across the top.
    TabBar,
    /// The tiles belonging to the selected tab.
    Content,
}

/// How a tab arranges its items, which determines what up/down mean.
#[derive(Debug, Clone, Copy, PartialEq, Eq, Structural)]
pub enum Layout {
    /// A single horizontal row. Up leaves to the tab bar; down does nothing.
    Row,
    /// A wrapped grid. `columns` is clamped to at least 1 when used.
    Grid { columns: usize },
    /// Nothing focusable here, such as a screen that is not built yet.
    Empty,
}

/// A tab's shape and how many items it currently holds.
#[derive(Debug, Clone, Copy, PartialEq, Eq, Structural)]
pub struct Tab {
    pub layout: Layout,
    pub len: usize,
}

impl Tab {
    pub fn new(layout: Layout, len: usize) -> (t: Self)
        ensures
            t.layout == layout,
            t.len == len,
    {
        Tab { layout, len }
    }

    /// Effective column count: `Row` is one row of everything, `Grid` uses
    /// its own value with zero treated as one, so division is always safe.
    fn columns(&self) -> (c: usize)
        ensures
            c == self.column_count(),
            c >= 1,
    {
        match self.layout {
            Layout::Row => if self.len >= 1 { self.len } else { 1 },
            Layout::Grid { columns } => if columns >= 1 { columns } else { 1 },
            Layout::Empty => 1,
        }
    }

    /// Whether the tab can hold focus: it has items and a layout that shows them.
    pub fn is_focusable(&self) -> (b: bool)
        ensures
            b == self.focusable(),
    {
        self.len > 0 && self.layout != Layout::Empty
    }
}

/// A remote key press, already mapped from whatever produced it.
#[derive(Debug, Clone, Copy, PartialEq, Eq, Structural)]
pub enum Action {
    Up,
    Down,
    Left,
    Right,
    Select,
    /// Back or Menu: step out one level.
    Back,
    /// Jump straight to the first tab's content from anywhere.
    Home,
    /// Previous tab, from anywhere.
    TabPrev,
    /// Next tab, from anywhere.
    TabNext,
}

/// What the caller should do as a result of an action.
#[derive(Debug, Clone, Copy, PartialEq, Eq, Structural)]
pub enum Outcome {
    /// Focus changed. Redraw and scroll the focused item into view.
    Moved,
    /// Select was pressed on a content item.
    Activated { tab: usize, index: usize },
    /// The action had no effect, for example right at the end of a row.
    Ignored,
    /// Back pressed at the outermost level. The caller decides what this
    /// means; the shell itself has nowhere further to go.
    ExitRequested,
}

/// Where focus is, and where it was in every tab previously visited.
#[derive(Debug, Clone, PartialEq, Eq)]
pub struct FocusModel {
    zone: Zone,
    tab: usize,
    /// Remembered content index per tab, so returning restores position.
    indices: Vec<usize>,
}

impl View for FocusModel {
    type V = FocusView;

    closed spec fn view(&self) -> FocusView {
        FocusView { zone: self.zone, tab: self.tab, indices: self.indices@ }
    }
}

impl FocusModel {
    /// Start on the first tab's content with nothing else remembered.
    pub fn new(tab_count: usize) -> (m: Self)
        ensures
            m@.zone == Zone::Content,
            m@.tab == 0,
            m@.indices == Seq::new(if tab_count >= 1 { tab_count as nat } else { 1 }, |_i: int| 0usize),
    {
        let n = if tab_count >= 1 { tab_count } else { 1 };
        let indices: Vec<usize> = vec![0; n];
        let m = FocusModel { zone: Zone::Content, tab: 0, indices };
        assert(m@.indices =~= Seq::new(n as nat, |_i: int| 0usize));
        m
    }

    pub fn zone(&self) -> (z: Zone)
        ensures
            z == self@.zone,
    {
        self.zone
    }

    pub fn tab(&self) -> (t: usize)
        ensures
            t == self@.tab,
    {
        self.tab
    }

    /// Focused item within the current tab.
    pub fn index(&self) -> (i: usize)
        ensures
            i == self@.index(),
    {
        self.index_of(self.tab)
    }

    /// Focused item within an arbitrary tab, for driving per-tab UI state.
    pub fn index_of(&self, tab: usize) -> (i: usize)
        ensures
            i == self@.index_of(tab as int),
    {
        if tab < self.indices.len() {
            self.indices[tab]
        } else {
            0
        }
    }

    /// Give at least `n` tabs a slot; new slots remember index zero.
    fn grow(&mut self, n: usize)
        ensures
            final(self)@ == old(self)@.grown(n as nat),
    {
        if self.indices.len() < n {
            let ghost before = self.indices@;
            self.indices.resize(n, 0);
            assert(self.indices@ =~= before + Seq::new((n - before.len()) as nat, |_i: int| 0usize));
        }
    }

    fn set_index(&mut self, index: usize)
        ensures
            final(self)@ == old(self)@.with_index(index),
    {
        if self.tab < self.indices.len() {
            self.indices.set(self.tab, index);
        }
    }

    /// Keep the remembered index inside the tab's current bounds.
    ///
    /// Item counts change underneath the model when apps are installed or
    /// removed, so a remembered index can outlive the item it pointed at.
    fn clamp_to_bounds(&mut self, tabs: &[Tab])
        ensures
            final(self)@ == old(self)@.clamped(tabs@),
    {
        if self.tab < tabs.len() {
            let t = tabs[self.tab];
            let max = t.len.saturating_sub(1);
            if self.index() > max {
                self.set_index(max);
            }
        }
    }

    /// Place focus directly, as a pointer click does.
    ///
    /// A click is an absolute move rather than a step, so it bypasses the
    /// directional rules entirely. Out-of-range requests are ignored rather
    /// than clamped: they mean the caller and the model disagree about what
    /// is on screen, and silently focusing a different tile would hide that.
    pub fn focus_on(&mut self, tab: usize, index: usize, tabs: &[Tab]) -> (r: Outcome)
        ensures
            (final(self)@, r) == old(self)@.item_clicked(tab, index, tabs@),
    {
        if tab >= tabs.len() {
            return Outcome::Ignored;
        }
        if index >= tabs[tab].len {
            return Outcome::Ignored;
        }
        self.grow(tabs.len());
        self.tab = tab;
        self.zone = Zone::Content;
        self.set_index(index);
        Outcome::Moved
    }

    /// Select a tab without entering it, as clicking the tab bar does.
    pub fn focus_tab(&mut self, tab: usize, tabs: &[Tab]) -> (r: Outcome)
        ensures
            (final(self)@, r) == old(self)@.tab_clicked(tab, tabs@),
    {
        if tab >= tabs.len() {
            return Outcome::Ignored;
        }
        self.grow(tabs.len());
        self.tab = tab;
        self.zone = if tabs[tab].is_focusable() {
            Zone::Content
        } else {
            Zone::TabBar
        };
        self.clamp_to_bounds(tabs);
        Outcome::Moved
    }

    /// Re-settle focus after the item counts changed underneath the model.
    ///
    /// A catalogue arriving, or an install finishing, changes how many tiles
    /// a tab has: a remembered index may now point past the end, and a tab
    /// that has become empty cannot hold focus at all. Takes the new shapes
    /// rather than deltas, so a caller cannot describe a change that did not
    /// happen.
    pub fn reconcile(&mut self, tabs: &[Tab])
        ensures
            final(self)@ == old(self)@.reconciled(tabs@),
    {
        if tabs.len() == 0 {
            return;
        }
        self.grow(tabs.len());
        self.clamp_to_bounds(tabs);
        if self.zone == Zone::Content && !(self.tab < tabs.len() && tabs[self.tab].is_focusable()) {
            self.zone = Zone::TabBar;
        }
    }

    /// Apply one action against the tabs' current shapes.
    ///
    /// The new state and the outcome are exactly those of
    /// [`FocusView::step`].
    pub fn handle(&mut self, action: Action, tabs: &[Tab]) -> (r: Outcome)
        ensures
            (final(self)@, r) == old(self)@.step(action, tabs@),
    {
        if tabs.len() == 0 {
            return Outcome::Ignored;
        }
        if self.tab >= tabs.len() {
            self.tab = 0;
        }
        self.grow(tabs.len());
        self.clamp_to_bounds(tabs);
        match action {
            Action::Home => self.go_home(tabs),
            Action::Back => self.go_back(tabs),
            Action::Select => self.select(tabs),
            Action::TabPrev => self.switch_tab(-1, tabs),
            Action::TabNext => self.switch_tab(1, tabs),
            _ => match self.zone {
                Zone::TabBar => self.move_in_tab_bar(action, tabs),
                Zone::Content => self.move_in_content(action, tabs),
            },
        }
    }

    fn go_home(&mut self, tabs: &[Tab]) -> (r: Outcome)
        requires
            tabs@.len() > 0,
        ensures
            (final(self)@, r) == old(self)@.home_step(tabs@),
    {
        let home_zone = if tabs[0].is_focusable() {
            Zone::Content
        } else {
            Zone::TabBar
        };
        let already_home = self.tab == 0 && (self.zone == Zone::Content || self.zone == home_zone)
            && self.index() == 0;
        if already_home {
            return Outcome::Ignored;
        }
        self.tab = 0;
        self.set_index(0);
        self.zone = home_zone;
        Outcome::Moved
    }

    /// Content steps out to the tab bar; the tab bar steps back to the first
    /// tab; the first tab with focus already on the bar has nowhere to go.
    fn go_back(&mut self, tabs: &[Tab]) -> (r: Outcome)
        ensures
            (final(self)@, r) == old(self)@.back_step(tabs@),
    {
        match self.zone {
            Zone::Content => {
                self.zone = Zone::TabBar;
                Outcome::Moved
            },
            Zone::TabBar => {
                if self.tab != 0 {
                    self.tab = 0;
                    self.clamp_to_bounds(tabs);
                    Outcome::Moved
                } else {
                    Outcome::ExitRequested
                }
            },
        }
    }

    fn select(&mut self, tabs: &[Tab]) -> (r: Outcome)
        requires
            old(self)@.tab < tabs@.len(),
        ensures
            (final(self)@, r) == old(self)@.select_step(tabs@),
    {
        match self.zone {
            // Selecting a tab drops focus into its content.
            Zone::TabBar => {
                if tabs[self.tab].is_focusable() {
                    self.zone = Zone::Content;
                    Outcome::Moved
                } else {
                    Outcome::Ignored
                }
            },
            Zone::Content => {
                if tabs[self.tab].is_focusable() {
                    Outcome::Activated { tab: self.tab, index: self.index() }
                } else {
                    Outcome::Ignored
                }
            },
        }
    }

    /// Move between tabs without going through the tab bar.
    ///
    /// Clamps rather than wrapping, matching every other movement in this
    /// model: a controller held against the end of the row should stop, not
    /// cycle round and land somewhere unexpected.
    fn switch_tab(&mut self, delta: isize, tabs: &[Tab]) -> (r: Outcome)
        ensures
            (final(self)@, r) == old(self)@.switch_step(delta as int, tabs@),
    {
        let n = tabs.len();
        let target = match self.tab.checked_add_signed(delta) {
            Some(t) => t,
            None => {
                return Outcome::Ignored;
            },
        };
        if target >= n {
            return Outcome::Ignored;
        }
        self.tab = target;
        self.clamp_to_bounds(tabs);
        // Focus cannot stay in content on a tab that has none, which is the
        // same reasoning `reconcile` applies when a tab empties.
        if self.zone == Zone::Content && !tabs[self.tab].is_focusable() {
            self.zone = Zone::TabBar;
        }
        Outcome::Moved
    }

    fn move_in_tab_bar(&mut self, action: Action, tabs: &[Tab]) -> (r: Outcome)
        requires
            old(self)@.tab < tabs@.len(),
        ensures
            (final(self)@, r) == old(self)@.tab_bar_step(action, tabs@),
    {
        let n = tabs.len();
        match action {
            Action::Left => {
                if self.tab > 0 {
                    self.tab = self.tab - 1;
                    self.clamp_to_bounds(tabs);
                    Outcome::Moved
                } else {
                    Outcome::Ignored
                }
            },
            Action::Right => {
                if self.tab + 1 < n {
                    self.tab = self.tab + 1;
                    self.clamp_to_bounds(tabs);
                    Outcome::Moved
                } else {
                    Outcome::Ignored
                }
            },
            Action::Down => {
                if tabs[self.tab].is_focusable() {
                    self.zone = Zone::Content;
                    Outcome::Moved
                } else {
                    Outcome::Ignored
                }
            },
            // Up from the tab bar is the top of the interface.
            _ => Outcome::Ignored,
        }
    }

    fn move_in_content(&mut self, action: Action, tabs: &[Tab]) -> (r: Outcome)
        requires
            old(self)@.tab < tabs@.len(),
            old(self)@.index() <= tabs@[old(self)@.tab as int].last_index(),
        ensures
            (final(self)@, r) == old(self)@.content_step(action, tabs@),
    {
        let tab = tabs[self.tab];
        if !tab.is_focusable() {
            // An empty tab cannot hold focus; the tab bar is the only way out.
            return if action == Action::Up {
                self.zone = Zone::TabBar;
                Outcome::Moved
            } else {
                Outcome::Ignored
            };
        }
        let columns = tab.columns();
        let index = self.index();
        let row = index / columns;
        let column = index % columns;
        let last_row = (tab.len - 1) / columns;
        proof {
            lemma_row_column(index as int, columns as int);
        }
        match action {
            Action::Left => {
                if column > 0 {
                    self.set_index(index - 1);
                    Outcome::Moved
                } else {
                    Outcome::Ignored
                }
            },
            Action::Right => {
                if column + 1 < columns && index + 1 < tab.len {
                    self.set_index(index + 1);
                    Outcome::Moved
                } else {
                    Outcome::Ignored
                }
            },
            Action::Up => {
                if row == 0 {
                    self.zone = Zone::TabBar;
                } else {
                    self.set_index(index - columns);
                }
                Outcome::Moved
            },
            Action::Down => {
                if row < last_row {
                    // Clamps into a partially filled final row rather than
                    // refusing.
                    let last = tab.len - 1;
                    let below = if columns < last - index {
                        index + columns
                    } else {
                        last
                    };
                    self.set_index(below);
                    Outcome::Moved
                } else {
                    Outcome::Ignored
                }
            },
            _ => Outcome::Ignored,
        }
    }
}

/// An index splits into its row and column: a nonzero column or row means
/// the index can step back by one, or by a whole row.
pub proof fn lemma_row_column(i: int, c: int)
    requires
        0 <= i,
        0 < c,
    ensures
        i == (i / c) * c + i % c,
        0 <= i % c < c,
        0 <= i / c,
        i % c > 0 ==> i >= 1,
        i / c > 0 ==> i >= c,
{
    assert(i == (i / c) * c + i % c && 0 <= i % c < c) by (nonlinear_arith)
        requires
            0 <= i,
            0 < c,
    ;
    assert(0 <= i / c) by (nonlinear_arith)
        requires
            0 <= i,
            0 < c,
    ;
    assert(i / c > 0 ==> (i / c) * c >= c) by (nonlinear_arith)
        requires
            0 < c,
    ;
}

} // verus!
