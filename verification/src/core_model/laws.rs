//! What every sequence of commands keeps.

use super::hierarchy::{going_on, space_named, with_layout, with_tab, without_tab, TabQuery};
use super::model::{empty_model, stop_effects, tab_session_ids, valid_name, ModelView};
use super::{
    CommandView, CommitView, CoreModelError, CreatedResource, EffectView, PaneId, PaneLayout,
    PaneSnapshot, SessionView, SpaceId, SpaceView, SplitAxis, SplitId, SplitPlacement, SplitRatio,
    TabId, TabView, TerminalSessionId,
};
use crate::sequences::{
    first_index, is_first_index, lemma_first_index_exists, lemma_first_index_none,
    lemma_first_index_some, lemma_occurrences_contains, lemma_total_bounded, lemma_total_concat,
    lemma_total_insert, lemma_total_member, lemma_total_push, lemma_total_remove,
    lemma_total_update, occurrences, same_as, total,
};
use crate::text::{is_blank, is_space};
use vstd::prelude::*;

verus! {

/// Taking one Pane out of a layout leaves every other.
pub proof fn lemma_without_keeps_others(layout: PaneLayout, pane_id: PaneId, other: PaneId)
    requires
        other != pane_id,
    ensures
        match layout.without(pane_id) {
            Some(remaining) => remaining.find_pane(other) == layout.find_pane(other),
            None => layout.find_pane(other) is None,
        },
    decreases layout,
{
    match layout {
        PaneLayout::Pane(_) => {},
        PaneLayout::Split(split) => {
            lemma_without_keeps_others(*split.first, pane_id, other);
            lemma_without_keeps_others(*split.second, pane_id, other);
        },
    }
}

/// A matching Tab anywhere is located somewhere.
pub proof fn lemma_locate_exists(query: TabQuery, spaces: Seq<SpaceView>, space: int, tab: int)
    requires
        0 <= space < spaces.len(),
        0 <= tab < spaces[space].tabs.len(),
        query.matches(spaces[space].tabs[tab]),
    ensures
        query.locate(spaces) is Some,
{
    lemma_first_index_exists(spaces[space].tabs, query.predicate(), tab);
    lemma_first_index_exists(spaces, query.space_predicate(), space);
}

/// What is located is in range and matches.
pub proof fn lemma_located(query: TabQuery, spaces: Seq<SpaceView>)
    ensures
        query.locate(spaces) matches Some((space, tab)) ==> {
            &&& 0 <= space < spaces.len()
            &&& 0 <= tab < spaces[space].tabs.len()
            &&& query.matches(spaces[space].tabs[tab])
        },
{
    if let Some((space, tab)) = query.locate(spaces) {
        assert(is_first_index(spaces, query.space_predicate(), space));
        assert(is_first_index(spaces[space].tabs, query.predicate(), tab));
    }
}

/// A Pane that stays can be located after another has left its place.
pub proof fn lemma_lifting_keeps_other_panes(model: ModelView, pane_id: PaneId, other: PaneId)
    requires
        pane_id != other,
        TabQuery::WithPane(pane_id).locate(model.snapshot.spaces) is Some,
        TabQuery::WithPane(other).locate(model.snapshot.spaces) is Some,
    ensures
        TabQuery::WithPane(other).locate(model.lifted(pane_id)) is Some,
{
    let spaces = model.snapshot.spaces;
    let lifted = model.lifted(pane_id);
    let query = TabQuery::WithPane(other);
    lemma_located(TabQuery::WithPane(pane_id), spaces);
    lemma_located(query, spaces);
    let (space, tab) = TabQuery::WithPane(pane_id).locate(spaces)->0;
    let (s, t) = query.locate(spaces)->0;
    let layout = spaces[space].tabs[tab].layout;
    lemma_without_keeps_others(layout, pane_id, other);
    match layout.without(pane_id) {
        Some(_) => {
            lemma_locate_exists(query, lifted, s, t);
        },
        None => {
            let tabs = spaces[space].tabs.remove(tab);
            let kept_space = if tabs.len() == 0 && space < s {
                s - 1
            } else {
                s
            };
            let kept_tab = if s == space && tab < t {
                t - 1
            } else {
                t
            };
            assert(lifted[kept_space].tabs[kept_tab] == spaces[s].tabs[t]);
            lemma_locate_exists(query, lifted, kept_space, kept_tab);
        },
    }
}

/// A measure of a hierarchy, by what each of its parts adds.
pub struct Weight {
    pub space: spec_fn(SpaceId) -> nat,
    pub tab: spec_fn(TabId) -> nat,
    pub split: spec_fn(SplitId) -> nat,
    pub pane: spec_fn(PaneSnapshot) -> nat,
}

impl Weight {
    pub open spec fn layout(self, layout: PaneLayout) -> nat
        decreases layout,
    {
        match layout {
            PaneLayout::Pane(pane) => (self.pane)(pane),
            PaneLayout::Split(split) => (self.split)(split.id) + self.layout(*split.first)
                + self.layout(*split.second),
        }
    }

    pub open spec fn of_tab(self) -> spec_fn(TabView) -> nat {
        |tab: TabView| (self.tab)(tab.id) + self.layout(tab.layout)
    }

    pub open spec fn of_space(self) -> spec_fn(SpaceView) -> nat {
        |space: SpaceView| (self.space)(space.id) + total(space.tabs, self.of_tab())
    }

    pub open spec fn spaces(self, spaces: Seq<SpaceView>) -> nat {
        total(spaces, self.of_space())
    }

    /// Whether only Panes count.
    pub open spec fn panes_only(self) -> bool {
        &&& forall|id: SpaceId| #[trigger] (self.space)(id) == 0
        &&& forall|id: TabId| #[trigger] (self.tab)(id) == 0
        &&& forall|id: SplitId| #[trigger] (self.split)(id) == 0
    }
}

pub open spec fn one_if(holds: bool) -> nat {
    if holds {
        1
    } else {
        0
    }
}

/// Counts the resources that `id` identifies.
pub open spec fn uses_of(id: u64) -> Weight {
    Weight {
        space: |space: SpaceId| one_if(space.0 == id),
        tab: |tab: TabId| one_if(tab.0 == id),
        split: |split: SplitId| one_if(split.0 == id),
        pane: |pane: PaneSnapshot|
            one_if(pane.id.0 == id) + one_if(pane.terminal_session_id.0 == id),
    }
}

/// Counts the Panes that satisfy `counted`.
pub open spec fn panes_where(counted: spec_fn(PaneSnapshot) -> bool) -> Weight {
    Weight {
        space: |space: SpaceId| 0nat,
        tab: |tab: TabId| 0nat,
        split: |split: SplitId| 0nat,
        pane: |pane: PaneSnapshot| one_if(counted(pane)),
    }
}

/// Counts the Panes that show the session `id`.
pub open spec fn showing(id: TerminalSessionId) -> Weight {
    panes_where(|pane: PaneSnapshot| pane.terminal_session_id == id)
}

/// Counts the places of the Pane `pane`.
pub open spec fn places_of(pane: PaneSnapshot) -> Weight {
    panes_where(|other: PaneSnapshot| other == pane)
}

/// Counts the sessions named `id`.
pub open spec fn sessions_named(id: TerminalSessionId) -> spec_fn(SessionView) -> nat {
    |session: SessionView| one_if(session.id == id)
}

impl ModelView {
    /// What holds of every hierarchy that commands build: each identity names
    /// one resource and was given out, the sessions are those that the Panes
    /// show, no Space is without a Tab, and names and directories are valid.
    pub open spec fn well_formed(self) -> bool {
        &&& self.next_id > 0
        &&& forall|id: u64| #[trigger] uses_of(id).spaces(self.snapshot.spaces) <= 1
        &&& forall|id: u64| #[trigger]
            uses_of(id).spaces(self.snapshot.spaces) > 0 ==> 0 < id < self.next_id
        &&& forall|id: TerminalSessionId| #[trigger]
            showing(id).spaces(self.snapshot.spaces) == total(
                self.snapshot.sessions,
                sessions_named(id),
            )
        &&& forall|space: int|
            0 <= space < self.snapshot.spaces.len() ==> valid_space(
                #[trigger] self.snapshot.spaces[space],
            )
    }
}

pub open spec fn valid_space(space: SpaceView) -> bool {
    &&& valid_name(space.name)
    &&& space.directory.len() > 0
    &&& space.tabs.len() > 0
    &&& forall|tab: int|
        0 <= tab < space.tabs.len() ==> valid_name((#[trigger] space.tabs[tab]).name)
}

pub proof fn lemma_weight_divided(
    weight: Weight,
    layout: PaneLayout,
    pane_id: PaneId,
    split_id: SplitId,
    axis: SplitAxis,
    ratio: SplitRatio,
    placement: SplitPlacement,
    new_pane: PaneSnapshot,
)
    requires
        layout.holds_pane(pane_id),
    ensures
        weight.layout(layout.divided(pane_id, split_id, axis, ratio, placement, new_pane))
            == weight.layout(layout) + (weight.split)(split_id) + (weight.pane)(new_pane),
    decreases layout,
{
    match layout {
        PaneLayout::Pane(pane) => {
            reveal_with_fuel(Weight::layout, 3);
        },
        PaneLayout::Split(split) => {
            if split.first.holds_pane(pane_id) {
                lemma_weight_divided(
                    weight,
                    *split.first,
                    pane_id,
                    split_id,
                    axis,
                    ratio,
                    placement,
                    new_pane,
                );
            } else {
                lemma_weight_divided(
                    weight,
                    *split.second,
                    pane_id,
                    split_id,
                    axis,
                    ratio,
                    placement,
                    new_pane,
                );
            }
        },
    }
}

/// A layout without one Pane has lost that Pane and at most one split.
pub proof fn lemma_weight_without(weight: Weight, layout: PaneLayout, pane_id: PaneId)
    requires
        layout.holds_pane(pane_id),
    ensures
        match layout.without(pane_id) {
            None => layout == PaneLayout::Pane(layout.find_pane(pane_id)->0),
            Some(remaining) => {
                &&& weight.layout(remaining) + (weight.pane)(layout.find_pane(pane_id)->0)
                    <= weight.layout(layout)
                &&& weight.panes_only() ==> weight.layout(remaining) + (weight.pane)(
                    layout.find_pane(pane_id)->0,
                ) == weight.layout(layout)
            },
        },
    decreases layout,
{
    reveal_with_fuel(Weight::layout, 2);
    match layout {
        PaneLayout::Pane(_) => {},
        PaneLayout::Split(split) => {
            if split.first.holds_pane(pane_id) {
                lemma_weight_without(weight, *split.first, pane_id);
            } else {
                lemma_weight_without(weight, *split.second, pane_id);
            }
        },
    }
}

pub proof fn lemma_weight_resized(
    weight: Weight,
    layout: PaneLayout,
    split_id: SplitId,
    ratio: SplitRatio,
)
    ensures
        weight.layout(layout.resized(split_id, ratio)) == weight.layout(layout),
    decreases layout,
{
    match layout {
        PaneLayout::Pane(_) => {},
        PaneLayout::Split(split) => {
            lemma_weight_resized(weight, *split.first, split_id, ratio);
            lemma_weight_resized(weight, *split.second, split_id, ratio);
        },
    }
}

pub proof fn lemma_weight_with_tab(
    weight: Weight,
    spaces: Seq<SpaceView>,
    space: int,
    tab: int,
    new: TabView,
)
    requires
        0 <= space < spaces.len(),
        0 <= tab < spaces[space].tabs.len(),
    ensures
        weight.spaces(with_tab(spaces, space, tab, new)) + weight.of_tab()(
            spaces[space].tabs[tab],
        ) == weight.spaces(spaces) + weight.of_tab()(new),
{
    let tabs = spaces[space].tabs;
    lemma_total_update(tabs, tab, new, weight.of_tab());
    lemma_total_update(
        spaces,
        space,
        SpaceView { tabs: tabs.update(tab, new), ..spaces[space] },
        weight.of_space(),
    );
}

pub proof fn lemma_weight_without_tab(weight: Weight, spaces: Seq<SpaceView>, space: int, tab: int)
    requires
        0 <= space < spaces.len(),
        0 <= tab < spaces[space].tabs.len(),
    ensures
        weight.spaces(without_tab(spaces, space, tab)) + weight.of_tab()(spaces[space].tabs[tab])
            <= weight.spaces(spaces),
        weight.panes_only() ==> weight.spaces(without_tab(spaces, space, tab)) + weight.of_tab()(
            spaces[space].tabs[tab],
        ) == weight.spaces(spaces),
{
    let tabs = spaces[space].tabs;
    let rest = tabs.remove(tab);
    lemma_total_remove(tabs, tab, weight.of_tab());
    if rest.len() == 0 {
        lemma_total_remove(spaces, space, weight.of_space());
    } else {
        lemma_total_update(
            spaces,
            space,
            SpaceView { tabs: rest, ..spaces[space] },
            weight.of_space(),
        );
    }
}

/// What a hierarchy weighs after a Pane has left its place.
pub proof fn lemma_weight_lifted(weight: Weight, model: ModelView, pane_id: PaneId)
    requires
        TabQuery::WithPane(pane_id).locate(model.snapshot.spaces) is Some,
    ensures
        weight.spaces(model.lifted(pane_id)) + (weight.pane)(model.pane(pane_id))
            <= weight.spaces(model.snapshot.spaces),
        weight.panes_only() ==> weight.spaces(model.lifted(pane_id)) + (weight.pane)(
            model.pane(pane_id),
        ) == weight.spaces(model.snapshot.spaces),
{
    let spaces = model.snapshot.spaces;
    lemma_located(TabQuery::WithPane(pane_id), spaces);
    let (space, tab) = TabQuery::WithPane(pane_id).locate(spaces)->0;
    let layout = spaces[space].tabs[tab].layout;
    lemma_weight_without(weight, layout, pane_id);
    match layout.without(pane_id) {
        None => {
            lemma_weight_without_tab(weight, spaces, space, tab);
        },
        Some(remaining) => {
            lemma_weight_with_tab(
                weight,
                spaces,
                space,
                tab,
                TabView { layout: remaining, ..spaces[space].tabs[tab] },
            );
        },
    }
}

/// What the hierarchy weighs after `command`: no more than before and what it
/// created, and exactly that unless it moves or closes something.
pub proof fn lemma_weight_change(weight: Weight, model: ModelView, command: CommandView)
    requires
        model.change(command) is Ok,
    ensures
        ({
            let before = weight.spaces(model.snapshot.spaces);
            let after = weight.spaces(model.change(command)->Ok_0.spaces);
            match command {
                CommandView::CreateSpace { .. } => after == before + (weight.space)(
                    SpaceId(model.id(0)),
                ) + (weight.tab)(TabId(model.id(1))) + (weight.pane)(
                    PaneSnapshot {
                        id: PaneId(model.id(2)),
                        terminal_session_id: TerminalSessionId(model.id(3)),
                    },
                ),
                CommandView::CreateTab { .. } => after == before + (weight.tab)(
                    TabId(model.id(0)),
                ) + (weight.pane)(
                    PaneSnapshot {
                        id: PaneId(model.id(1)),
                        terminal_session_id: TerminalSessionId(model.id(2)),
                    },
                ),
                CommandView::SplitPane { .. } => after == before + (weight.split)(
                    SplitId(model.id(2)),
                ) + (weight.pane)(
                    PaneSnapshot {
                        id: PaneId(model.id(0)),
                        terminal_session_id: TerminalSessionId(model.id(1)),
                    },
                ),
                CommandView::MovePane { .. } => {
                    &&& after <= before + (weight.split)(SplitId(model.id(0)))
                    &&& weight.panes_only() ==> after == before
                },
                CommandView::CloseTab { tab_id } => {
                    let (space, tab) = TabQuery::Named(tab_id).locate(model.snapshot.spaces)->0;
                    let closed = weight.layout(model.snapshot.spaces[space].tabs[tab].layout);
                    &&& after + closed <= before
                    &&& weight.panes_only() ==> after + closed == before
                },
                CommandView::CloseSpace { space_id } => {
                    let space = first_index(model.snapshot.spaces, space_named(space_id))->0;
                    let closed = total(model.snapshot.spaces[space].tabs, weight.of_tab());
                    &&& after + closed <= before
                    &&& weight.panes_only() ==> after + closed == before
                },
                CommandView::ClosePane { pane_id } => {
                    &&& after + (weight.pane)(model.pane(pane_id)) <= before
                    &&& weight.panes_only() ==> after + (weight.pane)(model.pane(pane_id))
                        == before
                },
                _ => after == before,
            }
        }),
{
    let spaces = model.snapshot.spaces;
    let change = model.change(command)->Ok_0;
    match command {
        CommandView::CreateSpace { name, directory } => {
            lemma_total_push(spaces, change.spaces.last(), weight.of_space());
            let tabs = change.spaces.last().tabs;
            assert(tabs.drop_last() =~= Seq::<TabView>::empty());
            reveal_with_fuel(total, 2);
            reveal_with_fuel(Weight::layout, 2);
        },
        CommandView::RenameSpace { space_id, name } => {
            let space = first_index(spaces, space_named(space_id))->0;
            lemma_total_update(spaces, space, change.spaces[space], weight.of_space());
        },
        CommandView::CreateTab { space_id, name } => {
            let space = first_index(spaces, space_named(space_id))->0;
            lemma_total_push(
                spaces[space].tabs,
                change.spaces[space].tabs.last(),
                weight.of_tab(),
            );
            lemma_total_update(spaces, space, change.spaces[space], weight.of_space());
            reveal_with_fuel(Weight::layout, 2);
        },
        CommandView::RenameTab { tab_id, name } => {
            lemma_located(TabQuery::Named(tab_id), spaces);
            let (space, tab) = TabQuery::Named(tab_id).locate(spaces)->0;
            lemma_weight_with_tab(weight, spaces, space, tab, change.spaces[space].tabs[tab]);
        },
        CommandView::ReorderTab { tab_id, index } => {
            lemma_located(TabQuery::Named(tab_id), spaces);
            let (space, tab) = TabQuery::Named(tab_id).locate(spaces)->0;
            let tabs = spaces[space].tabs;
            lemma_total_remove(tabs, tab, weight.of_tab());
            lemma_total_insert(tabs.remove(tab), index as int, tabs[tab], weight.of_tab());
            lemma_total_update(spaces, space, change.spaces[space], weight.of_space());
        },
        CommandView::SplitPane { pane_id, axis, placement, ratio } => {
            lemma_located(TabQuery::WithPane(pane_id), spaces);
            let (space, tab) = TabQuery::WithPane(pane_id).locate(spaces)->0;
            lemma_weight_divided(
                weight,
                spaces[space].tabs[tab].layout,
                pane_id,
                SplitId(model.id(2)),
                axis,
                ratio,
                placement,
                PaneSnapshot {
                    id: PaneId(model.id(0)),
                    terminal_session_id: TerminalSessionId(model.id(1)),
                },
            );
            lemma_weight_with_tab(weight, spaces, space, tab, change.spaces[space].tabs[tab]);
        },
        CommandView::MovePane { pane_id, target_pane_id, axis, placement, ratio } => {
            lemma_weight_lifted(weight, model, pane_id);
            lemma_lifting_keeps_other_panes(model, pane_id, target_pane_id);
            let lifted = model.lifted(pane_id);
            lemma_located(TabQuery::WithPane(target_pane_id), lifted);
            let (space, tab) = TabQuery::WithPane(target_pane_id).locate(lifted)->0;
            lemma_weight_divided(
                weight,
                lifted[space].tabs[tab].layout,
                target_pane_id,
                SplitId(model.id(0)),
                axis,
                ratio,
                placement,
                model.pane(pane_id),
            );
            lemma_weight_with_tab(weight, lifted, space, tab, change.spaces[space].tabs[tab]);
        },
        CommandView::ResizeSplit { split_id, ratio } => {
            lemma_located(TabQuery::WithSplit(split_id), spaces);
            let (space, tab) = TabQuery::WithSplit(split_id).locate(spaces)->0;
            lemma_weight_resized(weight, spaces[space].tabs[tab].layout, split_id, ratio);
            lemma_weight_with_tab(weight, spaces, space, tab, change.spaces[space].tabs[tab]);
        },
        CommandView::CloseTab { tab_id } => {
            lemma_located(TabQuery::Named(tab_id), spaces);
            let (space, tab) = TabQuery::Named(tab_id).locate(spaces)->0;
            lemma_weight_without_tab(weight, spaces, space, tab);
        },
        CommandView::CloseSpace { space_id } => {
            let space = first_index(spaces, space_named(space_id))->0;
            lemma_total_remove(spaces, space, weight.of_space());
        },
        CommandView::ClosePane { pane_id } => {
            lemma_weight_lifted(weight, model, pane_id);
        },
    }
}

/// The sessions of a layout are those that its Panes show.
proof fn lemma_layout_sessions(layout: PaneLayout, id: TerminalSessionId)
    ensures
        occurrences(layout.session_ids(), id) == showing(id).layout(layout),
    decreases layout,
{
    match layout {
        PaneLayout::Pane(pane) => {
            assert(layout.session_ids() =~= seq![pane.terminal_session_id]);
            assert(layout.session_ids().drop_last() =~= Seq::<TerminalSessionId>::empty());
            reveal_with_fuel(total, 2);
        },
        PaneLayout::Split(split) => {
            lemma_layout_sessions(*split.first, id);
            lemma_layout_sessions(*split.second, id);
            assert(layout.session_ids() =~= split.first.session_ids()
                + split.second.session_ids());
            lemma_total_concat(
                split.first.session_ids(),
                split.second.session_ids(),
                same_as(id),
            );
        },
    }
}

proof fn lemma_tab_sessions(tabs: Seq<TabView>, id: TerminalSessionId)
    ensures
        occurrences(tab_session_ids(tabs), id) == total(tabs, showing(id).of_tab()),
    decreases tabs.len(),
{
    if tabs.len() > 0 {
        lemma_tab_sessions(tabs.drop_last(), id);
        lemma_layout_sessions(tabs.last().layout, id);
        lemma_total_concat(
            tab_session_ids(tabs.drop_last()),
            tabs.last().layout.session_ids(),
            same_as(id),
        );
    }
}

proof fn lemma_going_on(
    sessions: Seq<SessionView>,
    stopped: Seq<TerminalSessionId>,
    id: TerminalSessionId,
)
    ensures
        total(going_on(sessions, stopped), sessions_named(id)) == if stopped.contains(id) {
            0
        } else {
            total(sessions, sessions_named(id))
        },
    decreases sessions.len(),
{
    reveal(Seq::filter);
    if sessions.len() > 0 {
        lemma_going_on(sessions.drop_last(), stopped, id);
        let kept = going_on(sessions.drop_last(), stopped);
        lemma_total_push(kept, sessions.last(), sessions_named(id));
    }
}

proof fn lemma_layout_weight_bounded(lighter: Weight, heavier: Weight, layout: PaneLayout)
    requires
        lighter.panes_only(),
        forall|pane: PaneSnapshot| #[trigger] (lighter.pane)(pane) <= (heavier.pane)(pane),
    ensures
        lighter.layout(layout) <= heavier.layout(layout),
    decreases layout,
{
    match layout {
        PaneLayout::Pane(_) => {},
        PaneLayout::Split(split) => {
            lemma_layout_weight_bounded(lighter, heavier, *split.first);
            lemma_layout_weight_bounded(lighter, heavier, *split.second);
        },
    }
}

/// A measure of Panes alone that no Pane exceeds, no hierarchy exceeds.
proof fn lemma_weight_bounded(lighter: Weight, heavier: Weight, spaces: Seq<SpaceView>)
    requires
        lighter.panes_only(),
        forall|pane: PaneSnapshot| #[trigger] (lighter.pane)(pane) <= (heavier.pane)(pane),
    ensures
        lighter.spaces(spaces) <= heavier.spaces(spaces),
{
    assert forall|s: int| 0 <= s < spaces.len() implies lighter.of_space()(#[trigger] spaces[s])
        <= heavier.of_space()(spaces[s]) by {
        let tabs = spaces[s].tabs;
        assert forall|t: int| 0 <= t < tabs.len() implies lighter.of_tab()(#[trigger] tabs[t])
            <= heavier.of_tab()(tabs[t]) by {
            lemma_layout_weight_bounded(lighter, heavier, tabs[t].layout);
        }
        lemma_total_bounded(tabs, lighter.of_tab(), heavier.of_tab());
    }
    lemma_total_bounded(spaces, lighter.of_space(), heavier.of_space());
}

/// Where identities name one resource each, at most one Pane shows a session.
proof fn lemma_shown_once(model: ModelView, id: TerminalSessionId)
    requires
        model.well_formed(),
    ensures
        showing(id).spaces(model.snapshot.spaces) <= 1,
{
    lemma_weight_bounded(showing(id), uses_of(id.0), model.snapshot.spaces);
    assert(uses_of(id.0).spaces(model.snapshot.spaces) <= 1);
}

/// The sessions that `command` stops.
pub open spec fn stopped_by(model: ModelView, command: CommandView) -> Seq<TerminalSessionId> {
    match command {
        CommandView::CloseTab { tab_id } => {
            let (space, tab) = TabQuery::Named(tab_id).locate(model.snapshot.spaces)->0;
            model.snapshot.spaces[space].tabs[tab].layout.session_ids()
        },
        CommandView::CloseSpace { space_id } => {
            let space = first_index(model.snapshot.spaces, space_named(space_id))->0;
            tab_session_ids(model.snapshot.spaces[space].tabs)
        },
        CommandView::ClosePane { pane_id } => seq![model.pane(pane_id).terminal_session_id],
        _ => Seq::empty(),
    }
}

/// The session that `command` starts, if any.
pub open spec fn started_by(model: ModelView, command: CommandView) -> Option<TerminalSessionId> {
    match command {
        CommandView::CreateSpace { .. } => Some(TerminalSessionId(model.id(3))),
        CommandView::CreateTab { .. } => Some(TerminalSessionId(model.id(2))),
        CommandView::SplitPane { .. } => Some(TerminalSessionId(model.id(1))),
        _ => None,
    }
}

/// Panes come to show what a command starts, and cease to show what it stops.
proof fn lemma_shown_change(model: ModelView, command: CommandView, id: TerminalSessionId)
    requires
        model.change(command) is Ok,
    ensures
        showing(id).spaces(model.change(command)->Ok_0.spaces) + occurrences(
            stopped_by(model, command),
            id,
        ) == showing(id).spaces(model.snapshot.spaces) + one_if(
            started_by(model, command) == Some(id),
        ),
{
    lemma_weight_change(showing(id), model, command);
    match command {
        CommandView::CloseTab { tab_id } => {
            let (space, tab) = TabQuery::Named(tab_id).locate(model.snapshot.spaces)->0;
            lemma_layout_sessions(model.snapshot.spaces[space].tabs[tab].layout, id);
        },
        CommandView::CloseSpace { space_id } => {
            let space = first_index(model.snapshot.spaces, space_named(space_id))->0;
            lemma_tab_sessions(model.snapshot.spaces[space].tabs, id);
        },
        CommandView::ClosePane { pane_id } => {
            let stopped = seq![model.pane(pane_id).terminal_session_id];
            assert(stopped.drop_last() =~= Seq::<TerminalSessionId>::empty());
            reveal_with_fuel(total, 2);
        },
        _ => {},
    }
}

/// The effects of a change stop what `stopped_by` and start what `started_by`
/// says.
pub proof fn law_effects(model: ModelView, command: CommandView)
    requires
        model.change(command) is Ok,
    ensures
        match started_by(model, command) {
            Some(id) => {
                &&& model.change(command)->Ok_0.effects.len() == 1
                &&& model.change(command)->Ok_0.effects[0] matches EffectView::LaunchTerminal {
                    terminal_session_id,
                    ..
                } && terminal_session_id == id
            },
            None => model.change(command)->Ok_0.effects == stop_effects(
                stopped_by(model, command),
            ),
        },
{
    assert(stop_effects(Seq::empty()) =~= Seq::empty());
}

/// A hierarchy starts well formed.
pub proof fn law_well_formed_at_start(first_id: u64)
    requires
        first_id > 0,
    ensures
        empty_model(first_id).well_formed(),
{
}

proof fn lemma_sessions_kept(model: ModelView, command: CommandView, id: TerminalSessionId)
    requires
        model.well_formed(),
        model.change(command) is Ok,
    ensures
        showing(id).spaces(model.change(command)->Ok_0.spaces) == total(
            model.change(command)->Ok_0.sessions,
            sessions_named(id),
        ),
{
    let sessions = model.snapshot.sessions;
    let change = model.change(command)->Ok_0;
    let stopped = stopped_by(model, command);
    lemma_shown_change(model, command, id);
    lemma_shown_once(model, id);
    lemma_occurrences_contains(stopped, id);
    lemma_going_on(sessions, stopped, id);
    if started_by(model, command) is Some {
        lemma_total_push(sessions, change.sessions.last(), sessions_named(id));
        assert(sessions.push(change.sessions.last()) =~= change.sessions);
    }
}

proof fn lemma_lifted_spaces_valid(model: ModelView, pane_id: PaneId)
    requires
        model.well_formed(),
        TabQuery::WithPane(pane_id).locate(model.snapshot.spaces) is Some,
    ensures
        forall|s: int|
            0 <= s < model.lifted(pane_id).len() ==> valid_space(
                #[trigger] model.lifted(pane_id)[s],
            ),
{
    let spaces = model.snapshot.spaces;
    let lifted = model.lifted(pane_id);
    lemma_located(TabQuery::WithPane(pane_id), spaces);
    let (space, tab) = TabQuery::WithPane(pane_id).locate(spaces)->0;
    assert(valid_space(spaces[space]));
    assert forall|s: int| 0 <= s < lifted.len() implies valid_space(#[trigger] lifted[s]) by {
        let origin = if lifted.len() < spaces.len() && s >= space {
            s + 1
        } else {
            s
        };
        assert(valid_space(spaces[origin]));
        if origin == space {
            let old_tabs = spaces[space].tabs;
            let tabs = lifted[s].tabs;
            assert forall|t: int| 0 <= t < tabs.len() implies valid_name(
                (#[trigger] tabs[t]).name,
            ) by {
                let from = if tabs.len() < old_tabs.len() && t >= tab {
                    t + 1
                } else {
                    t
                };
                assert(valid_name(old_tabs[from].name));
            }
        }
    }
}

proof fn lemma_spaces_kept_valid(model: ModelView, command: CommandView)
    requires
        model.well_formed(),
        model.change(command) is Ok,
    ensures
        forall|s: int|
            0 <= s < model.change(command)->Ok_0.spaces.len() ==> valid_space(
                #[trigger] model.change(command)->Ok_0.spaces[s],
            ),
{
    let spaces = model.snapshot.spaces;
    let after = model.change(command)->Ok_0.spaces;
    reveal_strlit("Terminal");
    match command {
        CommandView::MovePane { pane_id, target_pane_id, .. } => {
            lemma_lifted_spaces_valid(model, pane_id);
            lemma_lifting_keeps_other_panes(model, pane_id, target_pane_id);
            let lifted = model.lifted(pane_id);
            lemma_located(TabQuery::WithPane(target_pane_id), lifted);
            let (space, tab) = TabQuery::WithPane(target_pane_id).locate(lifted)->0;
            assert(valid_space(lifted[space]));
            assert(valid_name(lifted[space].tabs[tab].name));
            assert forall|s: int| 0 <= s < after.len() implies valid_space(#[trigger] after[s]) by {
                assert(valid_space(lifted[s]));
                assert forall|t: int| 0 <= t < after[s].tabs.len() implies valid_name(
                    (#[trigger] after[s].tabs[t]).name,
                ) by {
                    assert(valid_name(lifted[s].tabs[t].name));
                }
            }
        },
        CommandView::ClosePane { pane_id } => {
            lemma_lifted_spaces_valid(model, pane_id);
        },
        CommandView::CreateSpace { name, directory } => {
            assert(!is_blank("Terminal"@)) by {
                assert(!is_space("Terminal"@[0]));
            }
            assert forall|s: int| 0 <= s < after.len() implies valid_space(#[trigger] after[s]) by {
                if s < spaces.len() {
                    assert(valid_space(spaces[s]));
                }
            }
        },
        CommandView::CloseSpace { space_id } => {
            let space = first_index(spaces, space_named(space_id))->0;
            assert forall|s: int| 0 <= s < after.len() implies valid_space(#[trigger] after[s]) by {
                assert(valid_space(
                    spaces[if s < space {
                        s
                    } else {
                        s + 1
                    }],
                ));
            }
        },
        CommandView::CloseTab { tab_id } => {
            lemma_located(TabQuery::Named(tab_id), spaces);
            let (space, tab) = TabQuery::Named(tab_id).locate(spaces)->0;
            let rest = spaces[space].tabs.remove(tab);
            assert forall|s: int| 0 <= s < after.len() implies valid_space(#[trigger] after[s]) by {
                let origin = if rest.len() == 0 && s >= space {
                    s + 1
                } else {
                    s
                };
                assert(valid_space(spaces[origin]));
                if origin == space {
                    assert forall|t: int| 0 <= t < after[s].tabs.len() implies valid_name(
                        (#[trigger] after[s].tabs[t]).name,
                    ) by {
                        assert(valid_name(
                            spaces[space].tabs[if t < tab {
                                t
                            } else {
                                t + 1
                            }].name,
                        ));
                    }
                }
            }
        },
        CommandView::ReorderTab { tab_id, index } => {
            lemma_located(TabQuery::Named(tab_id), spaces);
            let (space, tab) = TabQuery::Named(tab_id).locate(spaces)->0;
            let tabs = spaces[space].tabs;
            assert forall|s: int| 0 <= s < after.len() implies valid_space(#[trigger] after[s]) by {
                assert(valid_space(spaces[s]));
                if s == space {
                    assert forall|t: int| 0 <= t < after[s].tabs.len() implies valid_name(
                        (#[trigger] after[s].tabs[t]).name,
                    ) by {
                        let slot = if t < index {
                            t
                        } else {
                            t - 1
                        };
                        let from = if t == index {
                            tab
                        } else if slot < tab {
                            slot
                        } else {
                            slot + 1
                        };
                        assert(after[s].tabs[t] == tabs[from]);
                    }
                }
            }
        },
        _ => {
            assert forall|s: int| 0 <= s < after.len() implies valid_space(#[trigger] after[s]) by {
                assert(valid_space(spaces[s]));
                assert forall|t: int| 0 <= t < after[s].tabs.len() implies valid_name(
                    (#[trigger] after[s].tabs[t]).name,
                ) by {
                    if t < spaces[s].tabs.len() {
                        assert(valid_name(spaces[s].tabs[t].name));
                    }
                }
            }
        },
    }
}

/// Every accepted command keeps the hierarchy well formed.
pub proof fn law_well_formed_kept(model: ModelView, expected_revision: u64, command: CommandView)
    requires
        model.well_formed(),
        model.has_ids_for(command),
        model.applied(expected_revision, command) is Ok,
    ensures
        model.applied(expected_revision, command)->Ok_0.0.well_formed(),
{
    let change = model.change(command)->Ok_0;
    let after = model.after(change);
    assert forall|id: u64| #[trigger] uses_of(id).spaces(after.snapshot.spaces) <= 1 && (uses_of(
        id,
    ).spaces(after.snapshot.spaces) > 0 ==> 0 < id < after.next_id) by {
        lemma_weight_change(uses_of(id), model, command);
        assert(uses_of(id).spaces(model.snapshot.spaces) <= 1);
        assert(uses_of(id).spaces(model.snapshot.spaces) > 0 ==> 0 < id < model.next_id);
    }
    assert forall|id: TerminalSessionId| #[trigger]
        showing(id).spaces(after.snapshot.spaces) == total(
            after.snapshot.sessions,
            sessions_named(id),
        ) by {
        lemma_sessions_kept(model, command, id);
    }
    lemma_spaces_kept_valid(model, command);
}

/// A session that a command stops was running, stops once and is gone.
pub proof fn law_stopped_sessions_end_once(
    model: ModelView,
    command: CommandView,
    id: TerminalSessionId,
)
    requires
        model.well_formed(),
        model.change(command) is Ok,
        stopped_by(model, command).contains(id),
    ensures
        occurrences(stopped_by(model, command), id) == 1,
        total(model.snapshot.sessions, sessions_named(id)) == 1,
        total(model.change(command)->Ok_0.sessions, sessions_named(id)) == 0,
{
    lemma_shown_change(model, command, id);
    lemma_shown_once(model, id);
    lemma_occurrences_contains(stopped_by(model, command), id);
    lemma_sessions_kept(model, command, id);
    assert(showing(id).spaces(model.snapshot.spaces) == total(
        model.snapshot.sessions,
        sessions_named(id),
    ));
}

/// A session that a command does not stop goes on.
pub proof fn law_other_sessions_go_on(
    model: ModelView,
    command: CommandView,
    id: TerminalSessionId,
)
    requires
        model.well_formed(),
        model.change(command) is Ok,
        !stopped_by(model, command).contains(id),
        started_by(model, command) != Some(id),
    ensures
        total(model.change(command)->Ok_0.sessions, sessions_named(id)) == total(
            model.snapshot.sessions,
            sessions_named(id),
        ),
        showing(id).spaces(model.change(command)->Ok_0.spaces) == showing(id).spaces(
            model.snapshot.spaces,
        ),
{
    lemma_shown_change(model, command, id);
    lemma_occurrences_contains(stopped_by(model, command), id);
    lemma_sessions_kept(model, command, id);
    assert(showing(id).spaces(model.snapshot.spaces) == total(
        model.snapshot.sessions,
        sessions_named(id),
    ));
}

/// A session that a command starts is new.
pub proof fn law_started_sessions_are_new(
    model: ModelView,
    command: CommandView,
    id: TerminalSessionId,
)
    requires
        model.well_formed(),
        model.has_ids_for(command),
        model.change(command) is Ok,
        started_by(model, command) == Some(id),
    ensures
        uses_of(id.0).spaces(model.snapshot.spaces) == 0,
        total(model.snapshot.sessions, sessions_named(id)) == 0,
        total(model.change(command)->Ok_0.sessions, sessions_named(id)) == 1,
{
    assert(uses_of(id.0).spaces(model.snapshot.spaces) > 0 ==> 0 < id.0 < model.next_id);
    lemma_weight_bounded(showing(id), uses_of(id.0), model.snapshot.spaces);
    lemma_shown_change(model, command, id);
    lemma_sessions_kept(model, command, id);
    assert(showing(id).spaces(model.snapshot.spaces) == total(
        model.snapshot.sessions,
        sessions_named(id),
    ));
}

/// Moving a Pane neither starts nor stops a session, and every Pane, with the
/// session it shows, is there as often as before.
pub proof fn law_moving_keeps_panes(
    model: ModelView,
    pane_id: PaneId,
    target_pane_id: PaneId,
    axis: SplitAxis,
    placement: SplitPlacement,
    ratio: SplitRatio,
    pane: PaneSnapshot,
)
    requires
        model.move_pane(pane_id, target_pane_id, axis, placement, ratio) is Ok,
    ensures
        ({
            let change = model.move_pane(pane_id, target_pane_id, axis, placement, ratio)->Ok_0;
            &&& change.effects.len() == 0
            &&& change.sessions == model.snapshot.sessions
            &&& places_of(pane).spaces(change.spaces) == places_of(pane).spaces(
                model.snapshot.spaces,
            )
        }),
{
    lemma_weight_change(
        places_of(pane),
        model,
        CommandView::MovePane { pane_id, target_pane_id, axis, placement, ratio },
    );
}

/// A layout in which nothing has an identity holds no Pane of that identity.
pub proof fn lemma_unused_in_layout(layout: PaneLayout, id: u64)
    requires
        uses_of(id).layout(layout) == 0,
    ensures
        !layout.holds_pane(PaneId(id)),
    decreases layout,
{
    match layout {
        PaneLayout::Pane(_) => {},
        PaneLayout::Split(split) => {
            lemma_unused_in_layout(*split.first, id);
            lemma_unused_in_layout(*split.second, id);
        },
    }
}

/// Where nothing has an identity, no Tab holds a Pane of that identity.
proof fn lemma_unused_in_tabs(spaces: Seq<SpaceView>, id: u64, space: int, tab: int)
    requires
        uses_of(id).spaces(spaces) == 0,
        0 <= space < spaces.len(),
        0 <= tab < spaces[space].tabs.len(),
    ensures
        !spaces[space].tabs[tab].layout.holds_pane(PaneId(id)),
{
    lemma_total_member(spaces, space, uses_of(id).of_space());
    lemma_total_member(spaces[space].tabs, tab, uses_of(id).of_tab());
    lemma_unused_in_layout(spaces[space].tabs[tab].layout, id);
}

/// A layout that is divided holds the new Pane, and without it is as before.
pub proof fn lemma_divided_without(
    layout: PaneLayout,
    pane_id: PaneId,
    split_id: SplitId,
    axis: SplitAxis,
    ratio: SplitRatio,
    placement: SplitPlacement,
    new_pane: PaneSnapshot,
)
    requires
        layout.holds_pane(pane_id),
        !layout.holds_pane(new_pane.id),
    ensures
        layout.divided(pane_id, split_id, axis, ratio, placement, new_pane).find_pane(new_pane.id)
            == Some(new_pane),
        layout.divided(pane_id, split_id, axis, ratio, placement, new_pane).without(new_pane.id)
            == Some(layout),
    decreases layout,
{
    reveal_with_fuel(PaneLayout::find_pane, 3);
    reveal_with_fuel(PaneLayout::without, 3);
    if let PaneLayout::Split(split) = layout {
        if split.first.holds_pane(pane_id) {
            lemma_divided_without(
                *split.first,
                pane_id,
                split_id,
                axis,
                ratio,
                placement,
                new_pane,
            );
        } else {
            lemma_divided_without(
                *split.second,
                pane_id,
                split_id,
                axis,
                ratio,
                placement,
                new_pane,
            );
        }
    }
}

/// Sessions among which none has the name go on as they are.
proof fn lemma_unnamed_go_on(sessions: Seq<SessionView>, id: TerminalSessionId)
    requires
        total(sessions, sessions_named(id)) == 0,
    ensures
        going_on(sessions, seq![id]) == sessions,
    decreases sessions.len(),
{
    reveal(Seq::filter);
    if sessions.len() > 0 {
        lemma_unnamed_go_on(sessions.drop_last(), id);
        lemma_total_member(sessions, sessions.len() - 1, sessions_named(id));
        assert(sessions.drop_last().push(sessions.last()) =~= sessions);
    }
}

/// Closing the Pane that a split made undoes the split: the Spaces and the
/// sessions are again what they were before it.
pub proof fn law_closing_undoes_a_split(
    model: ModelView,
    expected_revision: u64,
    pane_id: PaneId,
    axis: SplitAxis,
    placement: SplitPlacement,
    ratio: SplitRatio,
)
    requires
        model.well_formed(),
        model.has_ids_for(CommandView::SplitPane { pane_id, axis, placement, ratio }),
        model.applied(
            expected_revision,
            CommandView::SplitPane { pane_id, axis, placement, ratio },
        ) is Ok,
    ensures
        ({
            let (split, commit) = model.applied(
                expected_revision,
                CommandView::SplitPane { pane_id, axis, placement, ratio },
            )->Ok_0;
            commit.created matches CreatedResource::Pane { pane_id: made, .. } && ({
                let closed = split.applied(
                    split.snapshot.revision,
                    CommandView::ClosePane { pane_id: made },
                );
                &&& closed is Ok
                &&& closed->Ok_0.0.snapshot.spaces == model.snapshot.spaces
                &&& closed->Ok_0.0.snapshot.sessions == model.snapshot.sessions
            })
        }),
{
    let command = CommandView::SplitPane { pane_id, axis, placement, ratio };
    let change = model.change(command)->Ok_0;
    let spaces = model.snapshot.spaces;
    let made = PaneSnapshot {
        id: PaneId(model.id(0)),
        terminal_session_id: TerminalSessionId(model.id(1)),
    };
    let query = TabQuery::WithPane(made.id);
    lemma_located(TabQuery::WithPane(pane_id), spaces);
    let (space, tab) = TabQuery::WithPane(pane_id).locate(spaces)->0;
    let layout = spaces[space].tabs[tab].layout;
    assert(uses_of(made.id.0).spaces(spaces) > 0 ==> made.id.0 < model.next_id);
    lemma_unused_in_tabs(spaces, made.id.0, space, tab);
    lemma_divided_without(
        layout,
        pane_id,
        SplitId(model.id(2)),
        axis,
        ratio,
        placement,
        made,
    );
    let tabs = change.spaces[space].tabs;
    assert forall|t: int| 0 <= t < tab implies !query.predicate()(#[trigger] tabs[t]) by {
        lemma_unused_in_tabs(spaces, made.id.0, space, t);
    }
    lemma_first_index_some(tabs, query.predicate(), tab);
    assert forall|s: int| 0 <= s < space implies !query.space_predicate()(
        #[trigger] change.spaces[s],
    ) by {
        assert forall|t: int| 0 <= t < spaces[s].tabs.len() implies !query.predicate()(
            #[trigger] spaces[s].tabs[t],
        ) by {
            lemma_unused_in_tabs(spaces, made.id.0, s, t);
        }
        lemma_first_index_none(spaces[s].tabs, query.predicate());
    }
    lemma_first_index_some(change.spaces, query.space_predicate(), space);
    assert(query.locate(change.spaces) == Some((space, tab)));
    let closed = with_layout(change.spaces, space, tab, layout);
    assert(closed[space].tabs =~= spaces[space].tabs);
    assert(closed =~= spaces);
    law_started_sessions_are_new(model, command, made.terminal_session_id);
    lemma_unnamed_go_on(model.snapshot.sessions, made.terminal_session_id);
    reveal(Seq::filter);
    assert(change.sessions.drop_last() =~= model.snapshot.sessions);
    let stopped = seq![made.terminal_session_id];
    assert(stopped[0] == made.terminal_session_id);
    assert(going_on(change.sessions, stopped) == model.snapshot.sessions);
    assert(model.after(change).pane(made.id) == made);
    assert(model.after(change).lifted(made.id) == spaces);
}

/// An accepted command takes as many identities as it says: where so many are
/// left, it can be applied.
pub proof fn law_commands_take_their_identities(model: ModelView, command: CommandView)
    ensures
        model.change(command) matches Ok(change) ==> change.ids_taken == command.identities(),
        model.next_id + command.identities() <= u64::MAX ==> model.has_ids_for(command),
{
}

impl ModelView {
    /// The state after `command` was accepted or rejected.
    pub open spec fn after_command(self, expected_revision: u64, command: CommandView) -> ModelView {
        match self.applied(expected_revision, command) {
            Ok((after, _)) => after,
            Err(_) => self,
        }
    }

    /// What is reported of `command`.
    pub open spec fn answer(self, expected_revision: u64, command: CommandView) -> Result<
        CommitView,
        CoreModelError,
    > {
        match self.applied(expected_revision, command) {
            Ok((_, commit)) => Ok(commit),
            Err(error) => Err(error),
        }
    }

    /// The state after a series of commands, each with the revision it expects.
    pub open spec fn after_all(self, commands: Seq<(u64, CommandView)>) -> ModelView
        decreases commands.len(),
    {
        if commands.len() == 0 {
            self
        } else {
            self.after_all(commands.drop_last()).after_command(
                commands.last().0,
                commands.last().1,
            )
        }
    }

    /// What is reported of a series of commands.
    pub open spec fn answers(self, commands: Seq<(u64, CommandView)>) -> Seq<
        Result<CommitView, CoreModelError>,
    >
        decreases commands.len(),
    {
        if commands.len() == 0 {
            Seq::empty()
        } else {
            self.answers(commands.drop_last()).push(
                self.after_all(commands.drop_last()).answer(commands.last().0, commands.last().1),
            )
        }
    }

    /// Whether identities are left for what a series of commands creates.
    pub open spec fn has_ids_for_all(self, commands: Seq<(u64, CommandView)>) -> bool
        decreases commands.len(),
    {
        commands.len() > 0 ==> {
            let before = self.after_all(commands.drop_last());
            &&& self.has_ids_for_all(commands.drop_last())
            &&& commands.last().0 == before.snapshot.revision ==> before.has_ids_for(
                commands.last().1,
            )
        }
    }
}

/// A rejected command changes neither the hierarchy nor the identities to come:
/// whatever follows, it is answered and ends as if the command had not been.
pub proof fn law_rejected_commands_change_nothing(
    model: ModelView,
    expected_revision: u64,
    command: CommandView,
    later: Seq<(u64, CommandView)>,
)
    requires
        model.applied(expected_revision, command) is Err,
    ensures
        model.after_command(expected_revision, command) == model,
        model.after_command(expected_revision, command).after_all(later) == model.after_all(later),
        model.after_command(expected_revision, command).answers(later) == model.answers(later),
{
}

/// Every series of commands keeps the hierarchy well formed, and never gives an
/// identity back.
pub proof fn law_series_keep_the_hierarchy_well_formed(
    model: ModelView,
    commands: Seq<(u64, CommandView)>,
)
    requires
        model.well_formed(),
        model.has_ids_for_all(commands),
    ensures
        model.after_all(commands).well_formed(),
        model.after_all(commands).next_id >= model.next_id,
    decreases commands.len(),
{
    if commands.len() > 0 {
        let before = model.after_all(commands.drop_last());
        let (expected_revision, command) = commands.last();
        law_series_keep_the_hierarchy_well_formed(model, commands.drop_last());
        if before.applied(expected_revision, command) is Ok {
            law_well_formed_kept(before, expected_revision, command);
            law_revisions_and_identities_advance(before, expected_revision, command);
        }
    }
}

/// The sessions that the Panes of `spaces` show, Space by Space.
pub open spec fn shown_session_ids(spaces: Seq<SpaceView>) -> Seq<TerminalSessionId>
    decreases spaces.len(),
{
    if spaces.len() == 0 {
        Seq::empty()
    } else {
        shown_session_ids(spaces.drop_last()) + tab_session_ids(spaces.last().tabs)
    }
}

/// The sessions that there are.
pub open spec fn listed_session_ids(sessions: Seq<SessionView>) -> Seq<TerminalSessionId> {
    sessions.map_values(|session: SessionView| session.id)
}

proof fn lemma_shown_session_ids(spaces: Seq<SpaceView>, id: TerminalSessionId)
    ensures
        occurrences(shown_session_ids(spaces), id) == showing(id).spaces(spaces),
    decreases spaces.len(),
{
    if spaces.len() > 0 {
        lemma_shown_session_ids(spaces.drop_last(), id);
        lemma_tab_sessions(spaces.last().tabs, id);
        lemma_total_concat(
            shown_session_ids(spaces.drop_last()),
            tab_session_ids(spaces.last().tabs),
            same_as(id),
        );
    }
}

proof fn lemma_listed_session_ids(sessions: Seq<SessionView>, id: TerminalSessionId)
    ensures
        occurrences(listed_session_ids(sessions), id) == total(sessions, sessions_named(id)),
    decreases sessions.len(),
{
    if sessions.len() > 0 {
        lemma_listed_session_ids(sessions.drop_last(), id);
        assert(listed_session_ids(sessions).drop_last() =~= listed_session_ids(
            sessions.drop_last(),
        ));
    }
}

/// Items that occur at most once each have no duplicates.
proof fn lemma_no_duplicates<T>(items: Seq<T>)
    requires
        forall|item: T| #[trigger] occurrences(items, item) <= 1,
    ensures
        items.no_duplicates(),
{
    assert forall|i: int, j: int| 0 <= i < items.len() && 0 <= j < items.len() && i
        != j implies items[i] != items[j] by {
        if items[i] == items[j] {
            let (low, high) = if i < j {
                (i, j)
            } else {
                (j, i)
            };
            let weight = same_as(items[i]);
            lemma_total_remove(items, low, weight);
            assert(items.remove(low)[high - 1] == items[high]);
            lemma_total_member(items.remove(low), high - 1, weight);
            assert(occurrences(items, items[i]) <= 1);
        }
    }
}

/// After every series of commands each session has exactly one Pane, and each
/// Pane exactly one session.
pub proof fn law_sessions_and_panes_correspond(first_id: u64, commands: Seq<(u64, CommandView)>)
    requires
        first_id > 0,
        empty_model(first_id).has_ids_for_all(commands),
    ensures
        ({
            let snapshot = empty_model(first_id).after_all(commands).snapshot;
            &&& shown_session_ids(snapshot.spaces).no_duplicates()
            &&& listed_session_ids(snapshot.sessions).no_duplicates()
            &&& shown_session_ids(snapshot.spaces).to_set() == listed_session_ids(
                snapshot.sessions,
            ).to_set()
        }),
{
    law_well_formed_at_start(first_id);
    law_series_keep_the_hierarchy_well_formed(empty_model(first_id), commands);
    let model = empty_model(first_id).after_all(commands);
    let shown = shown_session_ids(model.snapshot.spaces);
    let listed = listed_session_ids(model.snapshot.sessions);
    assert forall|id: TerminalSessionId|
        #![trigger occurrences(shown, id)]
        #![trigger occurrences(listed, id)]
        occurrences(shown, id) <= 1 && occurrences(listed, id) == occurrences(shown, id) by {
        lemma_shown_session_ids(model.snapshot.spaces, id);
        lemma_listed_session_ids(model.snapshot.sessions, id);
        lemma_shown_once(model, id);
        assert(showing(id).spaces(model.snapshot.spaces) == total(
            model.snapshot.sessions,
            sessions_named(id),
        ));
    }
    lemma_no_duplicates(shown);
    lemma_no_duplicates(listed);
    assert forall|id: TerminalSessionId| shown.to_set().contains(id) <==> listed.to_set().contains(
        id,
    ) by {
        lemma_occurrences_contains(shown, id);
        lemma_occurrences_contains(listed, id);
        assert(occurrences(listed, id) == occurrences(shown, id));
    }
    assert(shown.to_set() =~= listed.to_set());
}

/// An identity is never given out twice, not even after what it named was
/// closed: what a command creates has a greater identity than anything in any
/// earlier state.
pub proof fn law_identities_are_never_reused(
    earlier: ModelView,
    between: Seq<(u64, CommandView)>,
    expected_revision: u64,
    command: CommandView,
    new: u64,
    old_id: u64,
)
    requires
        earlier.well_formed(),
        earlier.has_ids_for_all(between.push((expected_revision, command))),
        uses_of(old_id).spaces(earlier.snapshot.spaces) > 0,
        uses_of(new).spaces(earlier.after_all(between).snapshot.spaces) == 0,
        uses_of(new).spaces(
            earlier.after_all(between).after_command(
                expected_revision,
                command,
            ).snapshot.spaces,
        ) > 0,
    ensures
        new > old_id,
{
    let commands = between.push((expected_revision, command));
    assert(commands.drop_last() =~= between);
    law_series_keep_the_hierarchy_well_formed(earlier, between);
    let model = earlier.after_all(between);
    assert(old_id < earlier.next_id);
    assert(model.change(command) is Ok);
    lemma_weight_change(uses_of(new), model, command);
}

/// The revision counts accepted commands, and identities are never given out
/// twice.
pub proof fn law_revisions_and_identities_advance(
    model: ModelView,
    expected_revision: u64,
    command: CommandView,
)
    requires
        model.has_ids_for(command),
        model.applied(expected_revision, command) is Ok,
    ensures
        ({
            let (after, commit) = model.applied(expected_revision, command)->Ok_0;
            &&& expected_revision == model.snapshot.revision
            &&& commit.revision == after.snapshot.revision
            &&& commit.snapshot == after.snapshot
            &&& model.snapshot.revision < u64::MAX ==> after.snapshot.revision
                == model.snapshot.revision + 1
            &&& after.next_id >= model.next_id
        }),
{
}

} // verus!
