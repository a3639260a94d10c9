//! What holds of the focus model across all states and actions.
use vstd::prelude::*;

use crate::focus::{Action, Layout, Outcome, Tab, Zone};
use crate::model::FocusView;

verus! {

impl FocusView {
    /// A state an action starts from unchanged: the selected tab exists and
    /// has a slot, its index lies inside it, and content focus is only on a
    /// tab that can hold it.
    pub open spec fn settled(self, tabs: Seq<Tab>) -> bool {
        &&& tabs.len() > 0
        &&& self.tab < tabs.len()
        &&& self.indices.len() >= tabs.len()
        &&& self.index() <= tabs[self.tab as int].last_index()
        &&& self.zone == Zone::Content ==> tabs[self.tab as int].focusable()
    }

    /// The states a model keeps while the tabs' shapes stay the same: a
    /// selected tab that exists, a slot for every tab, every remembered index
    /// inside its tab, and content focus only on a tab that can hold it.
    pub open spec fn well_formed(self, tabs: Seq<Tab>) -> bool {
        &&& tabs.len() > 0
        &&& self.tab < tabs.len()
        &&& self.indices.len() >= tabs.len()
        &&& forall|t: int| 0 <= t < tabs.len() ==> #[trigger] self.indices[t] <= tabs[t].last_index()
        &&& self.zone == Zone::Content ==> tabs[self.tab as int].focusable()
    }
}

/// `v` pulled back to the last index of tab `t` when it lies past it.
pub open spec fn clamp_to(v: usize, t: Tab) -> usize {
    if v > t.last_index() {
        t.last_index()
    } else {
        v
    }
}

/// A settled state is already normalized: the first thing every action does
/// changes nothing.
proof fn lemma_normalized_identity(s: FocusView, tabs: Seq<Tab>)
    requires
        s.settled(tabs),
    ensures
        s.normalized(tabs) == s,
{
    assert(s.grown(tabs.len()) == s);
}

/// A well-formed state is settled.
pub proof fn lemma_well_formed_is_settled(s: FocusView, tabs: Seq<Tab>)
    requires
        s.well_formed(tabs),
    ensures
        s.settled(tabs),
{
    assert(s.index() == s.indices[s.tab as int]);
}

/// Clamping leaves the selected tab's index inside that tab and touches no
/// other tab's index.
proof fn lemma_clamped(s: FocusView, tabs: Seq<Tab>)
    requires
        s.tab < tabs.len(),
        s.indices.len() >= tabs.len(),
    ensures
        s.clamped(tabs).index() <= tabs[s.tab as int].last_index(),
        s.clamped(tabs).index() == clamp_to(s.index(), tabs[s.tab as int]),
        s.clamped(tabs).tab == s.tab,
        s.clamped(tabs).zone == s.zone,
        s.clamped(tabs).indices.len() == s.indices.len(),
        forall|j: int| j != s.tab ==> #[trigger] s.clamped(tabs).index_of(j) == s.index_of(j),
{
}

/// Normalizing against non-empty tabs yields a selected tab that exists, a
/// slot for every tab, and an in-bounds focused index; no tab other than the
/// selected one changes its remembered index.
proof fn lemma_normalized(s: FocusView, tabs: Seq<Tab>)
    requires
        tabs.len() > 0,
    ensures
        s.normalized(tabs).tab < tabs.len(),
        s.normalized(tabs).tab == (if s.tab < tabs.len() { s.tab } else { 0 }),
        s.normalized(tabs).zone == s.zone,
        s.normalized(tabs).indices.len() >= tabs.len(),
        s.normalized(tabs).index() <= tabs[s.normalized(tabs).tab as int].last_index(),
        forall|j: int| j != s.normalized(tabs).tab ==> #[trigger] s.normalized(tabs).index_of(j) == s.index_of(j),
{
    let a = if s.tab >= tabs.len() { s.with_tab(0) } else { s };
    let g = a.grown(tabs.len());
    assert forall|j: int| #[trigger] g.index_of(j) == a.index_of(j) by {
        if 0 <= j < a.indices.len() {
        } else if a.indices.len() <= j < g.indices.len() {
            assert(g.indices[j] == 0usize);
        }
    }
    lemma_clamped(g, tabs);
}

/// Whatever the state, after an action against non-empty tabs the selected
/// tab exists, every tab has a slot, and the focused index lies inside the
/// selected tab.
pub proof fn lemma_step_settles(s: FocusView, action: Action, tabs: Seq<Tab>)
    requires
        tabs.len() > 0,
    ensures
        s.step(action, tabs).0.tab < tabs.len(),
        s.step(action, tabs).0.indices.len() >= tabs.len(),
        s.step(action, tabs).0.index() <= tabs[s.step(action, tabs).0.tab as int].last_index(),
{
    let n = s.normalized(tabs);
    lemma_normalized(s, tabs);
    let r = s.step(action, tabs).0;
    match action {
        Action::Home => {
            assert(r == n.home_step(tabs).0);
        },
        Action::Back => {
            assert(r == n.back_step(tabs).0);
            if n.zone == Zone::TabBar && n.tab != 0 {
                lemma_clamped(n.with_tab(0), tabs);
            }
        },
        Action::Select => {
            assert(r == n.select_step(tabs).0);
        },
        Action::TabPrev => {
            assert(r == n.switch_step(-1, tabs).0);
            if n.tab > 0 {
                lemma_clamped(n.with_tab((n.tab - 1) as usize), tabs);
            }
        },
        Action::TabNext => {
            assert(r == n.switch_step(1, tabs).0);
            if n.tab + 1 < tabs.len() {
                lemma_clamped(n.with_tab((n.tab + 1) as usize), tabs);
            }
        },
        _ => {
            if n.zone == Zone::TabBar {
                assert(r == n.tab_bar_step(action, tabs).0);
                if n.tab > 0 {
                    lemma_clamped(n.with_tab((n.tab - 1) as usize), tabs);
                }
                if n.tab + 1 < tabs.len() {
                    lemma_clamped(n.with_tab((n.tab + 1) as usize), tabs);
                }
            } else {
                assert(r == n.content_step(action, tabs).0);
                lemma_content_step_settles(n, action, tabs);
            }
        },
    }
}

/// Moves within content keep the focused index inside the selected tab.
proof fn lemma_content_step_settles(n: FocusView, action: Action, tabs: Seq<Tab>)
    requires
        n.tab < tabs.len(),
        n.indices.len() >= tabs.len(),
        n.index() <= tabs[n.tab as int].last_index(),
    ensures
        n.content_step(action, tabs).0.tab == n.tab,
        n.content_step(action, tabs).0.indices.len() == n.indices.len(),
        n.content_step(action, tabs).0.index() <= tabs[n.tab as int].last_index(),
{
    let t = tabs[n.tab as int];
    if t.focusable() {
        let c = t.column_count() as int;
        let i = n.index() as int;
        crate::focus::lemma_row_column(i, c);
    }
}

/// From a normalized state, an action changes the remembered index of the
/// tab it ends on at most.
proof fn lemma_step_touches_only_final_tab(n: FocusView, action: Action, tabs: Seq<Tab>)
    requires
        tabs.len() > 0,
        n.tab < tabs.len(),
        n.indices.len() >= tabs.len(),
        n.index() <= tabs[n.tab as int].last_index(),
    ensures
        ({
            let r = match action {
                Action::Home => n.home_step(tabs).0,
                Action::Back => n.back_step(tabs).0,
                Action::Select => n.select_step(tabs).0,
                Action::TabPrev => n.switch_step(-1, tabs).0,
                Action::TabNext => n.switch_step(1, tabs).0,
                _ => match n.zone {
                    Zone::TabBar => n.tab_bar_step(action, tabs).0,
                    Zone::Content => n.content_step(action, tabs).0,
                },
            };
            &&& r.indices.len() == n.indices.len()
            &&& forall|j: int| j != r.tab ==> #[trigger] r.index_of(j) == n.index_of(j)
        }),
{
    if n.tab > 0 {
        lemma_clamped(n.with_tab((n.tab - 1) as usize), tabs);
    }
    if n.tab + 1 < tabs.len() {
        lemma_clamped(n.with_tab((n.tab + 1) as usize), tabs);
    }
    if n.tab != 0 {
        lemma_clamped(n.with_tab(0), tabs);
    }
    lemma_content_step_settles(n, action, tabs);
}

/// Each tab remembers where focus was: an action changes the remembered
/// index of no tab other than the one focus started on and the one it ends
/// on. (A selected tab that no longer exists counts as the first tab.)
pub proof fn lemma_step_remembers_other_tabs(s: FocusView, action: Action, tabs: Seq<Tab>, j: int)
    requires
        j != s.step(action, tabs).0.tab,
        j != s.tab,
        s.tab >= tabs.len() ==> j != 0,
    ensures
        s.step(action, tabs).0.index_of(j) == s.index_of(j),
{
    if tabs.len() > 0 {
        let n = s.normalized(tabs);
        lemma_normalized(s, tabs);
        lemma_step_touches_only_final_tab(n, action, tabs);
    }
}

/// While the tabs keep their shapes, every action keeps a well-formed state
/// well-formed: the selected tab exists, every remembered index is inside its
/// tab, and content focus is only ever on a tab that can hold it.
pub proof fn lemma_step_keeps_well_formed(s: FocusView, action: Action, tabs: Seq<Tab>)
    requires
        s.well_formed(tabs),
    ensures
        s.step(action, tabs).0.well_formed(tabs),
{
    lemma_well_formed_is_settled(s, tabs);
    lemma_normalized_identity(s, tabs);
    lemma_step_settles(s, action, tabs);
    lemma_step_touches_only_final_tab(s, action, tabs);
    let r = s.step(action, tabs).0;
    assert forall|t: int| 0 <= t < tabs.len() implies #[trigger] r.indices[t] <= tabs[t].last_index() by {
        assert(r.indices[t] == r.index_of(t));
        if t != r.tab {
            assert(r.index_of(t) == s.index_of(t));
            assert(s.indices[t] <= tabs[t].last_index());
        }
    }
}

/// A new model sized for at least as many tabs as it is handed starts
/// well-formed, provided the first tab can hold the content focus it starts
/// with.
pub proof fn lemma_new_is_well_formed(tab_count: usize, tabs: Seq<Tab>)
    requires
        tabs.len() > 0,
        tabs.len() <= tab_count,
        tabs[0].focusable(),
    ensures
        (FocusView {
            zone: Zone::Content,
            tab: 0,
            indices: Seq::new(tab_count as nat, |_i: int| 0usize),
        }).well_formed(tabs),
{
}

/// Focus clamps, it does not wrap: right at the end of a row or of the
/// items, and left at the start of a row, leave content focus where it is;
/// left and right on the tab bar, and the shoulder buttons anywhere, stop at
/// the first and last tab.
pub proof fn lemma_focus_clamps(s: FocusView, tabs: Seq<Tab>)
    requires
        s.settled(tabs),
    ensures
        ({
            let t = tabs[s.tab as int];
            let c = t.column_count() as int;
            let i = s.index() as int;
            &&& s.zone == Zone::Content && (i % c + 1 == c || i + 1 == t.len) ==> s.step(
                Action::Right,
                tabs,
            ) == (s, Outcome::Ignored)
            &&& s.zone == Zone::Content && i % c == 0 ==> s.step(Action::Left, tabs) == (
                s,
                Outcome::Ignored,
            )
            &&& s.zone == Zone::TabBar && s.tab == 0 ==> s.step(Action::Left, tabs) == (
                s,
                Outcome::Ignored,
            )
            &&& s.zone == Zone::TabBar && s.tab + 1 == tabs.len() ==> s.step(Action::Right, tabs)
                == (s, Outcome::Ignored)
            &&& s.tab == 0 ==> s.step(Action::TabPrev, tabs) == (s, Outcome::Ignored)
            &&& s.tab + 1 == tabs.len() ==> s.step(Action::TabNext, tabs) == (s, Outcome::Ignored)
        }),
{
    lemma_normalized_identity(s, tabs);
}

/// Left and right stay on their row in a grid: they never change the tab,
/// the zone or the row, so row changes are up and down only.
pub proof fn lemma_left_right_keep_the_row(s: FocusView, action: Action, tabs: Seq<Tab>)
    requires
        s.tab < tabs.len(),
        s.index() <= tabs[s.tab as int].last_index(),
        s.zone == Zone::Content,
        tabs[s.tab as int].focusable(),
        action == Action::Left || action == Action::Right,
    ensures
        ({
            let r = s.step(action, tabs).0;
            let c = tabs[s.tab as int].column_count() as int;
            &&& r.tab == s.tab
            &&& r.zone == Zone::Content
            &&& r.index() as int / c == s.index() as int / c
            &&& forall|t: int| t != s.tab ==> #[trigger] r.index_of(t) == s.index_of(t)
        }),
{
    lemma_normalized_keeps(s, tabs);
    lemma_content_left_right_keep_the_row(s.normalized(tabs), action, tabs);
}

/// The content move behind left and right keeps the row: from an in-bounds
/// index in a tab that can hold focus, neither changes the tab, the zone, the
/// row, or any other tab's remembered index.
pub proof fn lemma_content_left_right_keep_the_row(s: FocusView, action: Action, tabs: Seq<Tab>)
    requires
        s.tab < tabs.len(),
        s.index() <= tabs[s.tab as int].last_index(),
        s.zone == Zone::Content,
        tabs[s.tab as int].focusable(),
        action == Action::Left || action == Action::Right,
    ensures
        ({
            let r = s.content_step(action, tabs).0;
            let c = tabs[s.tab as int].column_count() as int;
            &&& r.tab == s.tab
            &&& r.zone == Zone::Content
            &&& r.index() as int / c == s.index() as int / c
            &&& forall|t: int| t != s.tab ==> #[trigger] r.index_of(t) == s.index_of(t)
        }),
{
    let t = tabs[s.tab as int];
    let c = t.column_count() as int;
    let i = s.index() as int;
    crate::focus::lemma_row_column(i, c);
    lemma_same_row(i, c);
}

/// Normalizing a state whose selected tab exists and holds an in-bounds index
/// only adds slots: zone, tab and every remembered index stay as they were.
proof fn lemma_normalized_keeps(s: FocusView, tabs: Seq<Tab>)
    requires
        s.tab < tabs.len(),
        s.index() <= tabs[s.tab as int].last_index(),
    ensures
        s.normalized(tabs).zone == s.zone,
        s.normalized(tabs).tab == s.tab,
        s.normalized(tabs).indices.len() >= tabs.len(),
        forall|j: int| #[trigger] s.normalized(tabs).index_of(j) == s.index_of(j),
{
    lemma_grown(s, tabs.len());
    let g = s.grown(tabs.len());
    assert(g.index() == s.index());
    assert(g.clamped(tabs) == g);
}

/// Stepping within a row keeps the row.
proof fn lemma_same_row(i: int, c: int)
    requires
        0 <= i,
        0 < c,
    ensures
        i % c > 0 ==> (i - 1) / c == i / c,
        i % c + 1 < c ==> (i + 1) / c == i / c,
{
    assert(i % c > 0 ==> (i - 1) / c == i / c) by (nonlinear_arith)
        requires
            0 <= i,
            0 < c,
    ;
    assert(i % c + 1 < c ==> (i + 1) / c == i / c) by (nonlinear_arith)
        requires
            0 <= i,
            0 < c,
    ;
}

/// Down moves a whole row, and from the row above a short last row it lands
/// on the last item rather than refusing; down on the last row does nothing.
pub proof fn lemma_down_moves_a_row(s: FocusView, tabs: Seq<Tab>)
    requires
        s.settled(tabs),
        s.zone == Zone::Content,
    ensures
        ({
            let t = tabs[s.tab as int];
            let c = t.column_count() as int;
            let i = s.index() as int;
            let r = s.step(Action::Down, tabs);
            &&& i / c < (t.len - 1) / c ==> {
                &&& r.1 == Outcome::Moved
                &&& r.0.tab == s.tab
                &&& r.0.zone == Zone::Content
                &&& r.0.index() as int / c == i / c + 1
                &&& r.0.index() == (if i + c < t.len { i + c } else { t.len - 1 })
            }
            &&& i / c == (t.len - 1) / c ==> r == (s, Outcome::Ignored)
        }),
{
    lemma_normalized_identity(s, tabs);
    let t = tabs[s.tab as int];
    let c = t.column_count() as int;
    let i = s.index() as int;
    crate::focus::lemma_row_column(i, c);
    if i / c < (t.len - 1) / c {
        lemma_next_row(i, c, t.len - 1);
    }
}

/// The item below `i`, or the last item `last` when the row below is short,
/// lies in the next row.
proof fn lemma_next_row(i: int, c: int, last: int)
    requires
        0 <= i <= last,
        0 < c,
        i / c < last / c,
    ensures
        (i + c) / c == i / c + 1,
        i + c > last ==> last / c == i / c + 1,
{
    assert((i + c) / c == i / c + 1) by (nonlinear_arith)
        requires
            0 <= i,
            0 < c,
    ;
    assert(i + c > last ==> last / c == i / c + 1) by (nonlinear_arith)
        requires
            0 <= i <= last,
            0 < c,
            i / c < last / c,
    ;
}

/// Up moves a whole row, and from the first row it reaches the tab bar
/// without changing the remembered index.
pub proof fn lemma_up_reaches_the_tab_bar(s: FocusView, tabs: Seq<Tab>)
    requires
        s.settled(tabs),
        s.zone == Zone::Content,
    ensures
        ({
            let c = tabs[s.tab as int].column_count() as int;
            let i = s.index() as int;
            &&& i < c ==> s.step(Action::Up, tabs) == (s.with_zone(Zone::TabBar), Outcome::Moved)
            &&& i >= c ==> s.step(Action::Up, tabs) == (
                s.with_index((i - c) as usize),
                Outcome::Moved,
            )
        }),
{
    lemma_normalized_identity(s, tabs);
    let c = tabs[s.tab as int].column_count() as int;
    let i = s.index() as int;
    crate::focus::lemma_row_column(i, c);
    assert(i < c ==> i / c == 0) by (nonlinear_arith)
        requires
            0 <= i,
            0 < c,
    ;
    assert(i >= c ==> i / c != 0) by (nonlinear_arith)
        requires
            0 <= i,
            0 < c,
    ;
}

/// Home jumps from anywhere to the first tab's first item, entering the zone
/// that tab offers when it moves, and is ignored exactly when focus is already
/// home.
pub proof fn lemma_home_jumps(s: FocusView, tabs: Seq<Tab>)
    requires
        tabs.len() > 0,
    ensures
        s.step(Action::Home, tabs).0.tab == 0,
        s.step(Action::Home, tabs).0.index() == 0,
        s.step(Action::Home, tabs).1 == Outcome::Moved ==> s.step(Action::Home, tabs).0.zone
            == FocusView::entry_zone(tabs[0]),
        s.step(Action::Home, tabs).1 == Outcome::Ignored <==> s.normalized(tabs).is_home(tabs),
        s.step(Action::Home, tabs).1 == Outcome::Ignored || s.step(Action::Home, tabs).1
            == Outcome::Moved,
{
    lemma_normalized(s, tabs);
}

/// Back asks to exit exactly at the outermost level, on the first tab with
/// focus on the bar; no other action ever asks to exit.
pub proof fn lemma_exit_only_from_the_outermost_back(s: FocusView, action: Action, tabs: Seq<Tab>)
    ensures
        s.step(action, tabs).1 == Outcome::ExitRequested <==> {
            &&& action == Action::Back
            &&& tabs.len() > 0
            &&& s.zone == Zone::TabBar
            &&& (s.tab == 0 || s.tab >= tabs.len())
        },
{
}

/// An activation always names the focused item, and that item exists.
pub proof fn lemma_activation_names_an_item(s: FocusView, action: Action, tabs: Seq<Tab>)
    ensures
        s.step(action, tabs).1 is Activated ==> {
            let r = s.step(action, tabs);
            &&& action == Action::Select
            &&& r.1->tab == r.0.tab
            &&& r.1->index == r.0.index()
            &&& r.1->tab < tabs.len()
            &&& r.1->index < tabs[r.1->tab as int].len
        },
{
    if tabs.len() > 0 {
        lemma_normalized(s, tabs);
    }
}

/// With no tabs at all every action is ignored and nothing changes.
pub proof fn lemma_no_tabs_is_survivable(s: FocusView, action: Action)
    ensures
        s.step(action, Seq::empty()) == (s, Outcome::Ignored),
{
}

/// Growing the slots keeps every remembered index; new slots remember zero.
proof fn lemma_grown(s: FocusView, n: nat)
    ensures
        s.grown(n).indices.len() >= n,
        s.grown(n).indices.len() >= s.indices.len(),
        s.grown(n).tab == s.tab,
        s.grown(n).zone == s.zone,
        forall|j: int| #[trigger] s.grown(n).index_of(j) == s.index_of(j),
{
    let g = s.grown(n);
    assert forall|j: int| #[trigger] g.index_of(j) == s.index_of(j) by {
        if s.indices.len() <= j < g.indices.len() {
            assert(g.indices[j] == 0usize);
        }
    }
}

/// Reconciling re-settles focus after the lists changed: every tab has a
/// slot, the selected tab stays selected, its remembered index is back inside
/// it, and focus is in content only on a tab that can hold it.
pub proof fn lemma_reconcile_settles(s: FocusView, tabs: Seq<Tab>)
    requires
        tabs.len() > 0,
    ensures
        s.reconciled(tabs).tab == s.tab,
        s.reconciled(tabs).indices.len() >= tabs.len(),
        s.tab < tabs.len() ==> s.reconciled(tabs).index() <= tabs[s.tab as int].last_index(),
        s.reconciled(tabs).zone == Zone::Content ==> s.tab < tabs.len() && tabs[s.tab as int].focusable(),
        forall|j: int| j != s.tab ==> #[trigger] s.reconciled(tabs).index_of(j) == s.index_of(j),
{
    lemma_grown(s, tabs.len());
    if s.tab < tabs.len() {
        lemma_clamped(s.grown(tabs.len()), tabs);
    }
}

/// Reconciling twice against the same shapes changes nothing the second time.
pub proof fn lemma_reconcile_is_idempotent(s: FocusView, tabs: Seq<Tab>)
    ensures
        s.reconciled(tabs).reconciled(tabs) == s.reconciled(tabs),
{
    if tabs.len() > 0 {
        lemma_reconcile_settles(s, tabs);
        let r = s.reconciled(tabs);
        assert(r.grown(tabs.len()) == r);
        if r.tab < tabs.len() {
            assert(r.indices[r.tab as int] == r.index());
        }
        assert(r.grown(tabs.len()).clamped(tabs) == r);
    }
}

/// Reconciling leaves focus alone when it still fits, as when a catalogue
/// arrives and a tab grows: same zone, same tab, and every tab's remembered
/// index unchanged.
pub proof fn lemma_reconcile_leaves_fitting_focus_alone(s: FocusView, tabs: Seq<Tab>)
    requires
        s.tab < tabs.len(),
        s.index() <= tabs[s.tab as int].last_index(),
        s.zone == Zone::Content ==> tabs[s.tab as int].focusable(),
    ensures
        s.reconciled(tabs).zone == s.zone,
        s.reconciled(tabs).tab == s.tab,
        forall|j: int| #[trigger] s.reconciled(tabs).index_of(j) == s.index_of(j),
{
    lemma_grown(s, tabs.len());
}

/// Reconciling never drags focus from the tab bar into content.
pub proof fn lemma_reconcile_keeps_the_bar(s: FocusView, tabs: Seq<Tab>)
    requires
        s.zone == Zone::TabBar,
    ensures
        s.reconciled(tabs).zone == Zone::TabBar,
{
}

/// Clicking a tab keeps a well-formed state well-formed.
pub proof fn lemma_tab_click_keeps_well_formed(s: FocusView, tab: usize, tabs: Seq<Tab>)
    requires
        s.well_formed(tabs),
    ensures
        s.tab_clicked(tab, tabs).0.well_formed(tabs),
{
    lemma_well_formed_is_settled(s, tabs);
    if tab < tabs.len() {
        let g = s.grown(tabs.len()).with_tab(tab).with_zone(FocusView::entry_zone(tabs[tab as int]));
        assert(s.grown(tabs.len()) == s);
        lemma_clamped(g, tabs);
        let r = g.clamped(tabs);
        assert forall|t: int| 0 <= t < tabs.len() implies #[trigger] r.indices[t] <= tabs[t].last_index() by {
            assert(r.indices[t] == r.index_of(t));
            if t != tab {
                assert(r.index_of(t) == g.index_of(t));
            }
        }
    }
}

/// Clicking an item keeps a well-formed state well-formed, unless the item
/// belongs to a tab whose layout shows nothing (such a click still lands in
/// that tab's content, which cannot hold focus).
pub proof fn lemma_item_click_keeps_well_formed(s: FocusView, tab: usize, index: usize, tabs: Seq<Tab>)
    requires
        s.well_formed(tabs),
        tab < tabs.len() ==> !(tabs[tab as int].layout is Empty),
    ensures
        s.item_clicked(tab, index, tabs).0.well_formed(tabs),
{
    assert(s.grown(tabs.len()) == s);
    let r = s.item_clicked(tab, index, tabs).0;
    assert forall|t: int| 0 <= t < tabs.len() implies #[trigger] r.indices[t] <= tabs[t].last_index() by {
        assert(r.indices[t] == r.index_of(t));
    }
}

/// Switching to the next tab and straight back returns to the same tab and
/// the same item, and no tab other than the one visited on the way changes
/// its remembered index. (`tabs` is as long as a slice can be.)
pub proof fn lemma_tab_switch_round_trip(s: FocusView, tabs: Seq<Tab>)
    requires
        s.tab + 1 < tabs.len(),
        s.index() <= tabs[s.tab as int].last_index(),
        tabs.len() <= usize::MAX,
    ensures
        ({
            let there = s.step(Action::TabNext, tabs);
            let back = there.0.step(Action::TabPrev, tabs);
            &&& there.1 == Outcome::Moved
            &&& back.1 == Outcome::Moved
            &&& back.0.tab == s.tab
            &&& back.0.index() == s.index()
            &&& forall|t: int| t != s.tab + 1 ==> #[trigger] back.0.index_of(t) == s.index_of(t)
        }),
{
    lemma_normalized_keeps(s, tabs);
    let n = s.normalized(tabs);
    let next: usize = (s.tab + 1) as usize;
    lemma_clamped(n.with_tab(next), tabs);
    let r1 = s.step(Action::TabNext, tabs).0;
    assert(r1 == n.arrive(next, tabs));
    assert(r1.tab == next);
    lemma_normalized_keeps(r1, tabs);
    let m = r1.normalized(tabs);
    let w = m.with_tab(s.tab);
    lemma_clamped(w, tabs);
    assert(r1.index_of(s.tab as int) == s.index_of(s.tab as int));
    assert(w.index() == s.index());
    assert(w.clamped(tabs) == w);
    let r2 = r1.step(Action::TabPrev, tabs).0;
    assert(r2 == m.arrive(s.tab, tabs));
    assert forall|t: int| t != s.tab + 1 implies #[trigger] r2.index_of(t) == s.index_of(t) by {
        assert(r2.index_of(t) == w.index_of(t));
        assert(w.index_of(t) == m.index_of(t));
    }
}

/// An ignored action leaves a settled state exactly as it was.
pub proof fn lemma_ignored_changes_nothing(s: FocusView, action: Action, tabs: Seq<Tab>)
    requires
        s.settled(tabs),
    ensures
        s.step(action, tabs).1 == Outcome::Ignored ==> s.step(action, tabs).0 == s,
{
    lemma_normalized_identity(s, tabs);
}

/// From a settled state, an action reported as moving focus always changes
/// the state. (`tabs` is as long as a slice can be.)
pub proof fn lemma_moved_changes_focus(s: FocusView, action: Action, tabs: Seq<Tab>)
    requires
        s.settled(tabs),
        tabs.len() <= usize::MAX,
    ensures
        s.step(action, tabs).1 == Outcome::Moved ==> s.step(action, tabs).0 != s,
{
    lemma_normalized_identity(s, tabs);
    let r = s.step(action, tabs);
    if r.1 == Outcome::Moved {
        let t = tabs[s.tab as int];
        match action {
            Action::Home => {
                if s.tab == 0 && s.index() == 0 {
                    assert(r.0.zone != s.zone);
                } else if s.tab == 0 {
                    assert(r.0.index() == 0);
                    assert(s.index() != 0);
                }
            },
            Action::Back => {
                assert(r.0.zone != s.zone || r.0.tab != s.tab);
            },
            Action::Select => {
                assert(r.0.zone != s.zone);
            },
            Action::TabPrev | Action::TabNext => {
                assert(r.0.tab != s.tab);
            },
            _ => {
                if s.zone == Zone::TabBar {
                    assert(r.0.zone != s.zone || r.0.tab != s.tab);
                } else if !t.focusable() {
                    assert(r.0.zone != s.zone);
                } else {
                    let c = t.column_count() as int;
                    let i = s.index() as int;
                    crate::focus::lemma_row_column(i, c);
                    lemma_row_below_last(i, c, t.len - 1);
                    if action == Action::Up && i / c != 0 {
                        assert(r.0.index() != s.index());
                    }
                    if action == Action::Down || action == Action::Left || action == Action::Right {
                        assert(r.0.index() != s.index());
                    }
                }
            },
        }
    }
}

/// An item in a row above the last lies before the last item.
proof fn lemma_row_below_last(i: int, c: int, last: int)
    requires
        0 <= i <= last,
        0 < c,
    ensures
        i / c < last / c ==> i < last,
{
    assert(i / c < last / c ==> i < last) by (nonlinear_arith)
        requires
            0 <= i <= last,
            0 < c,
    ;
}

/// Left and right inside a focusable tab's content step by exactly one item
/// within the row: left moves to `i - 1` whenever focus is not in the row's
/// first column, right to `i + 1` whenever the row and the items go on. The
/// tab, the zone and every other tab's index stay as they were.
pub proof fn lemma_left_right_step_by_one(s: FocusView, tabs: Seq<Tab>)
    requires
        s.settled(tabs),
        s.zone == Zone::Content,
    ensures
        ({
            let t = tabs[s.tab as int];
            let c = t.column_count() as int;
            let i = s.index() as int;
            let l = s.step(Action::Left, tabs);
            let r = s.step(Action::Right, tabs);
            &&& i % c > 0 ==> {
                &&& l.1 == Outcome::Moved
                &&& l.0.tab == s.tab
                &&& l.0.zone == Zone::Content
                &&& l.0.index() == i - 1
                &&& forall|k: int| k != s.tab ==> #[trigger] l.0.index_of(k) == s.index_of(k)
            }
            &&& i % c + 1 < c && i + 1 < t.len ==> {
                &&& r.1 == Outcome::Moved
                &&& r.0.tab == s.tab
                &&& r.0.zone == Zone::Content
                &&& r.0.index() == i + 1
                &&& forall|k: int| k != s.tab ==> #[trigger] r.0.index_of(k) == s.index_of(k)
            }
        }),
{
    lemma_normalized_identity(s, tabs);
    let t = tabs[s.tab as int];
    crate::focus::lemma_row_column(s.index() as int, t.column_count() as int);
}

/// Up from the first row of content moves focus to the tab bar of the same
/// tab and remembers every index; from a lower row it moves exactly one row
/// up, to `i - c`, staying in content.
pub proof fn lemma_up_moves_one_row_or_to_the_bar(s: FocusView, tabs: Seq<Tab>)
    requires
        s.settled(tabs),
        s.zone == Zone::Content,
    ensures
        ({
            let c = tabs[s.tab as int].column_count() as int;
            let i = s.index() as int;
            let u = s.step(Action::Up, tabs);
            &&& u.1 == Outcome::Moved
            &&& u.0.tab == s.tab
            &&& forall|k: int| k != s.tab ==> #[trigger] u.0.index_of(k) == s.index_of(k)
            &&& i < c ==> u.0.zone == Zone::TabBar && u.0.index() == i
            &&& i >= c ==> u.0.zone == Zone::Content && u.0.index() == i - c
        }),
{
    lemma_up_reaches_the_tab_bar(s, tabs);
}

/// In the content of a tab that cannot hold focus (one that emptied under
/// it), only Up does anything: it lifts focus to the bar of the same tab.
pub proof fn lemma_stranded_focus_escapes_up(s: FocusView, action: Action, tabs: Seq<Tab>)
    requires
        s.tab < tabs.len(),
        s.zone == Zone::Content,
        !tabs[s.tab as int].focusable(),
        action == Action::Up || action == Action::Down || action == Action::Left || action
            == Action::Right,
    ensures
        s.step(action, tabs).0.tab == s.tab,
        action == Action::Up ==> s.step(action, tabs).1 == Outcome::Moved && s.step(
            action,
            tabs,
        ).0.zone == Zone::TabBar,
        action != Action::Up ==> s.step(action, tabs).1 == Outcome::Ignored && s.step(
            action,
            tabs,
        ).0.zone == Zone::Content,
{
    lemma_normalized(s, tabs);
}

/// On the tab bar, left and right select the neighbouring tab without
/// entering it, pulling that tab's remembered index back inside it; down
/// enters a tab that can hold focus without moving its index; up is the top
/// and does nothing. No other tab's index changes.
pub proof fn lemma_tab_bar_moves(s: FocusView, tabs: Seq<Tab>)
    requires
        s.settled(tabs),
        s.zone == Zone::TabBar,
        tabs.len() <= usize::MAX,
    ensures
        ({
            let l = s.step(Action::Left, tabs);
            let r = s.step(Action::Right, tabs);
            let d = s.step(Action::Down, tabs);
            &&& s.tab > 0 ==> {
                &&& l.1 == Outcome::Moved
                &&& l.0.zone == Zone::TabBar
                &&& l.0.tab == s.tab - 1
                &&& l.0.index() == clamp_to(s.index_of(s.tab - 1), tabs[s.tab - 1])
                &&& forall|k: int| k != s.tab - 1 ==> #[trigger] l.0.index_of(k) == s.index_of(k)
            }
            &&& s.tab + 1 < tabs.len() ==> {
                &&& r.1 == Outcome::Moved
                &&& r.0.zone == Zone::TabBar
                &&& r.0.tab == s.tab + 1
                &&& r.0.index() == clamp_to(s.index_of(s.tab + 1), tabs[s.tab + 1])
                &&& forall|k: int| k != s.tab + 1 ==> #[trigger] r.0.index_of(k) == s.index_of(k)
            }
            &&& tabs[s.tab as int].focusable() ==> d == (
                FocusView { zone: Zone::Content, tab: s.tab, indices: s.indices },
                Outcome::Moved,
            )
            &&& !tabs[s.tab as int].focusable() ==> d == (s, Outcome::Ignored)
            &&& s.step(Action::Up, tabs) == (s, Outcome::Ignored)
        }),
{
    lemma_normalized_identity(s, tabs);
    if s.tab > 0 {
        lemma_clamped(s.with_tab((s.tab - 1) as usize), tabs);
    }
    if s.tab + 1 < tabs.len() {
        lemma_clamped(s.with_tab((s.tab + 1) as usize), tabs);
    }
}

/// Back from content steps out to the bar of the same tab and forgets
/// nothing. Back from the bar of any other tab selects the first tab, still
/// on the bar, keeping its remembered index (pulled back inside it if it lies
/// past its end) and every other tab's. Back from the first tab's bar asks to
/// exit and changes nothing.
pub proof fn lemma_back_steps_out(s: FocusView, tabs: Seq<Tab>)
    requires
        s.settled(tabs),
    ensures
        ({
            let b = s.step(Action::Back, tabs);
            &&& s.zone == Zone::Content ==> b == (
                FocusView { zone: Zone::TabBar, tab: s.tab, indices: s.indices },
                Outcome::Moved,
            )
            &&& s.zone == Zone::TabBar && s.tab != 0 ==> {
                &&& b.1 == Outcome::Moved
                &&& b.0.zone == Zone::TabBar
                &&& b.0.tab == 0
                &&& b.0.index() == clamp_to(s.index_of(0), tabs[0])
                &&& forall|k: int| k != 0 ==> #[trigger] b.0.index_of(k) == s.index_of(k)
            }
            &&& s.zone == Zone::TabBar && s.tab == 0 ==> b == (s, Outcome::ExitRequested)
        }),
{
    lemma_normalized_identity(s, tabs);
    if s.tab != 0 {
        lemma_clamped(s.with_tab(0), tabs);
    }
}

/// Select on the bar of a tab that can hold focus enters its content and
/// changes nothing else: the same tab, and every remembered index as it was,
/// so focus returns to the item it left. Select in content activates exactly
/// the focused item. Select on a tab that cannot hold focus does nothing.
pub proof fn lemma_select_enters_or_activates(s: FocusView, tabs: Seq<Tab>)
    requires
        s.settled(tabs),
    ensures
        ({
            let r = s.step(Action::Select, tabs);
            &&& s.zone == Zone::TabBar && tabs[s.tab as int].focusable() ==> r == (
                FocusView { zone: Zone::Content, tab: s.tab, indices: s.indices },
                Outcome::Moved,
            )
            &&& s.zone == Zone::Content ==> r == (
                s,
                Outcome::Activated { tab: s.tab, index: s.index() },
            )
            &&& !tabs[s.tab as int].focusable() ==> r == (s, Outcome::Ignored)
        }),
{
    lemma_normalized_identity(s, tabs);
}

/// The shoulder buttons select the neighbouring tab from either zone,
/// pulling its remembered index back inside it. Focus stays in the zone it
/// was in, except that content focus cannot land on a tab that cannot hold
/// it and goes to the bar instead. No other tab's index changes.
pub proof fn lemma_shoulder_buttons_switch_tabs(s: FocusView, tabs: Seq<Tab>)
    requires
        s.settled(tabs),
        tabs.len() <= usize::MAX,
    ensures
        ({
            let p = s.step(Action::TabPrev, tabs);
            let n = s.step(Action::TabNext, tabs);
            &&& s.tab > 0 ==> {
                let k = s.tab - 1;
                &&& p.1 == Outcome::Moved
                &&& p.0.tab == k
                &&& p.0.index() == clamp_to(s.index_of(k), tabs[k])
                &&& p.0.zone == (if s.zone == Zone::Content && !tabs[k].focusable() {
                    Zone::TabBar
                } else {
                    s.zone
                })
                &&& forall|j: int| j != k ==> #[trigger] p.0.index_of(j) == s.index_of(j)
            }
            &&& s.tab + 1 < tabs.len() ==> {
                let k = s.tab + 1;
                &&& n.1 == Outcome::Moved
                &&& n.0.tab == k
                &&& n.0.index() == clamp_to(s.index_of(k), tabs[k])
                &&& n.0.zone == (if s.zone == Zone::Content && !tabs[k].focusable() {
                    Zone::TabBar
                } else {
                    s.zone
                })
                &&& forall|j: int| j != k ==> #[trigger] n.0.index_of(j) == s.index_of(j)
            }
        }),
{
    lemma_normalized_identity(s, tabs);
    if s.tab > 0 {
        lemma_clamped(s.with_tab((s.tab - 1) as usize), tabs);
    }
    if s.tab + 1 < tabs.len() {
        lemma_clamped(s.with_tab((s.tab + 1) as usize), tabs);
    }
}

/// Home from a settled state: ignored, with nothing changed, exactly when
/// focus is on the first tab's first item, in content or (for a first tab
/// that cannot hold focus) on the bar; otherwise it moves to the first tab's
/// first item, into its content when it can hold focus and onto the bar when
/// it cannot, and no other tab's index changes.
pub proof fn lemma_home_goes_to_the_first_item(s: FocusView, tabs: Seq<Tab>)
    requires
        s.settled(tabs),
    ensures
        ({
            let h = s.step(Action::Home, tabs);
            let home = s.tab == 0 && s.index() == 0 && (s.zone == Zone::Content || !tabs[0].focusable());
            &&& home ==> h == (s, Outcome::Ignored)
            &&& !home ==> {
                &&& h.1 == Outcome::Moved
                &&& h.0.tab == 0
                &&& h.0.index() == 0
                &&& h.0.zone == (if tabs[0].focusable() {
                    Zone::Content
                } else {
                    Zone::TabBar
                })
                &&& forall|k: int| k != 0 ==> #[trigger] h.0.index_of(k) == s.index_of(k)
            }
        }),
{
    lemma_normalized_identity(s, tabs);
}

/// A click on an existing item puts focus on exactly that item, in content,
/// from either zone, and changes no other tab's index; a click on anything
/// else changes nothing.
pub proof fn lemma_click_lands_on_the_item(s: FocusView, tab: usize, index: usize, tabs: Seq<Tab>)
    ensures
        ({
            let r = s.item_clicked(tab, index, tabs);
            &&& tab < tabs.len() && index < tabs[tab as int].len ==> {
                &&& r.1 == Outcome::Moved
                &&& r.0.zone == Zone::Content
                &&& r.0.tab == tab
                &&& r.0.index() == index
                &&& r.0.indices.len() >= tabs.len()
                &&& forall|k: int| k != tab ==> #[trigger] r.0.index_of(k) == s.index_of(k)
            }
            &&& !(tab < tabs.len() && index < tabs[tab as int].len) ==> r == (s, Outcome::Ignored)
        }),
{
    lemma_grown(s, tabs.len());
}

/// A click on an existing tab selects it, enters its content exactly when it
/// can hold focus, keeps its remembered index (pulled back inside it if past
/// its end) and every other tab's; a click past the last tab changes nothing.
pub proof fn lemma_tab_click_selects_the_tab(s: FocusView, tab: usize, tabs: Seq<Tab>)
    ensures
        ({
            let r = s.tab_clicked(tab, tabs);
            &&& tab < tabs.len() ==> {
                &&& r.1 == Outcome::Moved
                &&& r.0.tab == tab
                &&& r.0.zone == (if tabs[tab as int].focusable() {
                    Zone::Content
                } else {
                    Zone::TabBar
                })
                &&& r.0.index() == clamp_to(s.index_of(tab as int), tabs[tab as int])
                &&& forall|k: int| k != tab ==> #[trigger] r.0.index_of(k) == s.index_of(k)
            }
            &&& tab >= tabs.len() ==> r == (s, Outcome::Ignored)
        }),
{
    if tab < tabs.len() {
        lemma_grown(s, tabs.len());
        let g = s.grown(tabs.len()).with_tab(tab).with_zone(FocusView::entry_zone(tabs[tab as int]));
        lemma_clamped(g, tabs);
    }
}

/// Reconciling pulls the selected tab's remembered index back to exactly that
/// tab's last item when it lies past the end, leaves it alone otherwise,
/// keeps the selected tab and every other tab's index, and keeps the zone
/// unless focus was in the content of a tab that can no longer hold it, which
/// moves it to the bar. With no tabs nothing changes.
pub proof fn lemma_reconcile_clamps_exactly(s: FocusView, tabs: Seq<Tab>)
    ensures
        tabs.len() == 0 ==> s.reconciled(tabs) == s,
        tabs.len() > 0 ==> {
            let r = s.reconciled(tabs);
            let holds = s.tab < tabs.len() && tabs[s.tab as int].focusable();
            &&& r.tab == s.tab
            &&& s.tab < tabs.len() ==> r.index() == clamp_to(s.index(), tabs[s.tab as int])
            &&& forall|k: int| k != s.tab ==> #[trigger] r.index_of(k) == s.index_of(k)
            &&& r.zone == (if s.zone == Zone::Content && !holds {
                Zone::TabBar
            } else {
                s.zone
            })
        },
{
    if tabs.len() > 0 {
        lemma_grown(s, tabs.len());
        if s.tab < tabs.len() {
            lemma_clamped(s.grown(tabs.len()), tabs);
        }
    }
}

/// What a tab's shape means for movement: a row lays all its items out in
/// one row, a grid uses its own column count with zero read as one, an empty
/// layout counts as one column; the last index is one before the length
/// (zero for no items); a tab holds focus exactly when it has items in a
/// layout that shows them.
pub proof fn lemma_tab_shape(t: Tab)
    ensures
        t.layout is Row ==> t.column_count() == (if t.len == 0 { 1 } else { t.len }),
        t.layout is Grid ==> t.column_count() == (if t.layout->columns == 0 {
            1
        } else {
            t.layout->columns
        }),
        t.layout is Empty ==> t.column_count() == 1,
        t.len > 0 ==> t.last_index() == t.len - 1,
        t.len == 0 ==> t.last_index() == 0,
        t.focusable() <==> (t.len > 0 && t.layout != Layout::Empty),
{
}

/// A selected tab that no longer exists counts as the first tab: any action
/// does exactly what it would do with the first tab selected.
pub proof fn lemma_stale_tab_counts_as_the_first(s: FocusView, action: Action, tabs: Seq<Tab>)
    requires
        tabs.len() > 0,
        s.tab >= tabs.len(),
    ensures
        s.step(action, tabs) == (FocusView { zone: s.zone, tab: 0, indices: s.indices }).step(
            action,
            tabs,
        ),
{
    let z = FocusView { zone: s.zone, tab: 0, indices: s.indices };
    assert(s.normalized(tabs) == z.normalized(tabs));
}

/// While the tabs keep their shapes, every action keeps a settled state
/// settled.
pub proof fn lemma_step_keeps_settled(s: FocusView, action: Action, tabs: Seq<Tab>)
    requires
        s.settled(tabs),
    ensures
        s.step(action, tabs).0.settled(tabs),
{
    lemma_normalized_identity(s, tabs);
    lemma_step_settles(s, action, tabs);
}

/// Reconciling against non-empty tabs settles any state whose selected tab
/// still exists.
pub proof fn lemma_reconcile_makes_settled(s: FocusView, tabs: Seq<Tab>)
    requires
        tabs.len() > 0,
        s.tab < tabs.len(),
    ensures
        s.reconciled(tabs).settled(tabs),
{
    lemma_reconcile_settles(s, tabs);
}

} // verus!
