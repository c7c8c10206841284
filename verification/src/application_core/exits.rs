//! What becomes of the Pane of a terminal that has exited.

use crate::core_model::hierarchy::TabQuery;
use crate::core_model::laws::{
    law_effects, law_well_formed_kept, lemma_locate_exists, lemma_located, places_of,
    sessions_named, showing, uses_of,
};
use crate::core_model::model::{CoreModel, ModelView};
use crate::core_model::{
    CommandView, CoreCommand, CoreCommit, CoreSnapshot, EffectView, PaneId, PaneLayout, PaneSnapshot, SpaceView, TabView,
    TerminalSessionId,
};
use crate::resident_core::control::session_set;
use crate::sequences::{lemma_total_member, total, views};
use vstd::prelude::*;

verus! {

/// The first Pane of a layout that shows a session.
pub open spec fn pane_in_layout(layout: PaneLayout, session: TerminalSessionId) -> Option<
    PaneSnapshot,
>
    decreases layout,
{
    match layout {
        PaneLayout::Pane(pane) => if pane.terminal_session_id == session {
            Some(pane)
        } else {
            None
        },
        PaneLayout::Split(split) => match pane_in_layout(*split.first, session) {
            Some(pane) => Some(pane),
            None => pane_in_layout(*split.second, session),
        },
    }
}

/// The first Pane among `tabs` that shows a session.
pub open spec fn pane_in_tabs(tabs: Seq<TabView>, session: TerminalSessionId) -> Option<
    PaneSnapshot,
>
    decreases tabs.len(),
{
    if tabs.len() == 0 {
        None
    } else {
        match pane_in_tabs(tabs.drop_last(), session) {
            Some(pane) => Some(pane),
            None => pane_in_layout(tabs.last().layout, session),
        }
    }
}

/// The first Pane of all that shows a session.
pub open spec fn pane_in_spaces(spaces: Seq<SpaceView>, session: TerminalSessionId) -> Option<
    PaneSnapshot,
>
    decreases spaces.len(),
{
    if spaces.len() == 0 {
        None
    } else {
        match pane_in_spaces(spaces.drop_last(), session) {
            Some(pane) => Some(pane),
            None => pane_in_tabs(spaces.last().tabs, session),
        }
    }
}

pub open spec fn pane_id_of(pane: Option<PaneSnapshot>) -> Option<PaneId> {
    match pane {
        Some(pane) => Some(pane.id),
        None => None,
    }
}

fn pane_for_terminal_in_layout(layout: &PaneLayout, session: TerminalSessionId) -> (pane: Option<
    PaneId,
>)
    ensures
        pane == pane_id_of(pane_in_layout(*layout, session)),
    decreases layout,
{
    match layout {
        PaneLayout::Pane(pane) => if pane.terminal_session_id == session {
            Some(pane.id)
        } else {
            None
        },
        PaneLayout::Split(split) => match pane_for_terminal_in_layout(&split.first, session) {
            Some(pane) => Some(pane),
            None => pane_for_terminal_in_layout(&split.second, session),
        },
    }
}

/// The first Pane that shows a session.
pub fn pane_for_terminal(snapshot: &CoreSnapshot, session: TerminalSessionId) -> (pane: Option<
    PaneId,
>)
    ensures
        pane == pane_id_of(pane_in_spaces(snapshot@.spaces, session)),
{
    let ghost all = snapshot@.spaces;
    let mut space: usize = 0;
    while space < snapshot.spaces.len()
        invariant
            space <= snapshot.spaces@.len(),
            all == views(snapshot.spaces@),
            pane_in_spaces(all.take(space as int), session) is None,
        decreases snapshot.spaces@.len() - space,
    {
        let tabs = &snapshot.spaces[space].tabs;
        let ghost tab_views = all[space as int].tabs;
        let mut tab: usize = 0;
        proof {
            assert(all.take(space + 1).drop_last() =~= all.take(space as int));
            assert(all.take(space + 1).last() == all[space as int]);
        }
        while tab < tabs.len()
            invariant
                tab <= tabs@.len(),
                space < snapshot.spaces@.len(),
                all == views(snapshot.spaces@),
                tab_views == views(tabs@),
                tab_views == all[space as int].tabs,
                all.take(space + 1).drop_last() == all.take(space as int),
                all.take(space + 1).last() == all[space as int],
                pane_in_spaces(all.take(space as int), session) is None,
                pane_in_tabs(tab_views.take(tab as int), session) is None,
            decreases tabs@.len() - tab,
        {
            let found = pane_for_terminal_in_layout(&tabs[tab].layout, session);
            proof {
                let part = tab_views.take(tab + 1);
                assert(part.drop_last() =~= tab_views.take(tab as int));
                assert(part.last() == tab_views[tab as int]);
                if found is Some {
                    lemma_pane_in_more_tabs(tab_views, tab + 1, session);
                    lemma_pane_in_more_spaces(all, space + 1, session);
                }
            }
            if found.is_some() {
                return found;
            }
            tab += 1;
        }
        proof {
            assert(tab_views.take(tab as int) =~= tab_views);
        }
        space += 1;
    }
    proof {
        assert(all.take(space as int) =~= all);
    }
    None
}

proof fn lemma_pane_in_more_tabs(tabs: Seq<TabView>, count: int, session: TerminalSessionId)
    requires
        0 <= count <= tabs.len(),
        pane_in_tabs(tabs.take(count), session) is Some,
    ensures
        pane_in_tabs(tabs, session) == pane_in_tabs(tabs.take(count), session),
    decreases tabs.len() - count,
{
    if count == tabs.len() {
        assert(tabs.take(count) =~= tabs);
    } else {
        assert(tabs.take(count + 1).drop_last() =~= tabs.take(count));
        lemma_pane_in_more_tabs(tabs, count + 1, session);
    }
}

proof fn lemma_pane_in_more_spaces(spaces: Seq<SpaceView>, count: int, session: TerminalSessionId)
    requires
        0 <= count <= spaces.len(),
        pane_in_spaces(spaces.take(count), session) is Some,
    ensures
        pane_in_spaces(spaces, session) == pane_in_spaces(spaces.take(count), session),
    decreases spaces.len() - count,
{
    if count == spaces.len() {
        assert(spaces.take(count) =~= spaces);
    } else {
        assert(spaces.take(count + 1).drop_last() =~= spaces.take(count));
        lemma_pane_in_more_spaces(spaces, count + 1, session);
    }
}

/// Whether a layout has the Pane `pane`.
spec fn has_pane(layout: PaneLayout, pane: PaneSnapshot) -> bool
    decreases layout,
{
    match layout {
        PaneLayout::Pane(other) => other == pane,
        PaneLayout::Split(split) => has_pane(*split.first, pane) || has_pane(*split.second, pane),
    }
}

proof fn lemma_pane_in_layout(layout: PaneLayout, session: TerminalSessionId)
    ensures
        match pane_in_layout(layout, session) {
            Some(pane) => has_pane(layout, pane) && pane.terminal_session_id == session,
            None => showing(session).layout(layout) == 0,
        },
    decreases layout,
{
    match layout {
        PaneLayout::Pane(_) => {},
        PaneLayout::Split(split) => {
            lemma_pane_in_layout(*split.first, session);
            lemma_pane_in_layout(*split.second, session);
        },
    }
}

proof fn lemma_pane_in_tabs(tabs: Seq<TabView>, session: TerminalSessionId)
    ensures
        match pane_in_tabs(tabs, session) {
            Some(pane) => pane.terminal_session_id == session && exists|tab: int|
                0 <= tab < tabs.len() && has_pane((#[trigger] tabs[tab]).layout, pane),
            None => total(tabs, showing(session).of_tab()) == 0,
        },
    decreases tabs.len(),
{
    if tabs.len() > 0 {
        lemma_pane_in_tabs(tabs.drop_last(), session);
        lemma_pane_in_layout(tabs.last().layout, session);
        if let Some(pane) = pane_in_tabs(tabs.drop_last(), session) {
            let tab = choose|tab: int|
                0 <= tab < tabs.drop_last().len() && has_pane(
                    (#[trigger] tabs.drop_last()[tab]).layout,
                    pane,
                );
            assert(has_pane(tabs[tab].layout, pane));
        } else if let Some(pane) = pane_in_layout(tabs.last().layout, session) {
            assert(has_pane(tabs[tabs.len() - 1].layout, pane));
        }
    }
}

proof fn lemma_pane_in_spaces(spaces: Seq<SpaceView>, session: TerminalSessionId)
    ensures
        match pane_in_spaces(spaces, session) {
            Some(pane) => pane.terminal_session_id == session && exists|space: int, tab: int|
                0 <= space < spaces.len() && 0 <= tab < spaces[space].tabs.len() && has_pane(
                    (#[trigger] spaces[space].tabs[tab]).layout,
                    pane,
                ),
            None => showing(session).spaces(spaces) == 0,
        },
    decreases spaces.len(),
{
    if spaces.len() > 0 {
        let rest = spaces.drop_last();
        lemma_pane_in_spaces(rest, session);
        lemma_pane_in_tabs(spaces.last().tabs, session);
        if let Some(pane) = pane_in_spaces(rest, session) {
            let (space, tab) = choose|space: int, tab: int|
                0 <= space < rest.len() && 0 <= tab < rest[space].tabs.len() && has_pane(
                    (#[trigger] rest[space].tabs[tab]).layout,
                    pane,
                );
            assert(has_pane(spaces[space].tabs[tab].layout, pane));
        } else if let Some(pane) = pane_in_tabs(spaces.last().tabs, session) {
            let last = spaces.len() - 1;
            let tabs = spaces.last().tabs;
            let tab = choose|tab: int|
                0 <= tab < tabs.len() && has_pane((#[trigger] tabs[tab]).layout, pane);
            assert(has_pane(spaces[last].tabs[tab].layout, pane));
        }
    }
}

/// A Pane that is there counts.
proof fn lemma_has_pane_counts(layout: PaneLayout, pane: PaneSnapshot)
    requires
        has_pane(layout, pane),
    ensures
        places_of(pane).layout(layout) >= 1,
        layout.holds_pane(pane.id),
    decreases layout,
{
    match layout {
        PaneLayout::Pane(_) => {},
        PaneLayout::Split(split) => {
            if has_pane(*split.first, pane) {
                lemma_has_pane_counts(*split.first, pane);
            } else {
                lemma_has_pane_counts(*split.second, pane);
            }
        },
    }
}

/// The Pane that is found by its identity is there.
proof fn lemma_found_pane(layout: PaneLayout, pane_id: PaneId)
    ensures
        layout.find_pane(pane_id) matches Some(pane) ==> has_pane(layout, pane) && pane.id
            == pane_id,
    decreases layout,
{
    match layout {
        PaneLayout::Pane(_) => {},
        PaneLayout::Split(split) => {
            lemma_found_pane(*split.first, pane_id);
            lemma_found_pane(*split.second, pane_id);
        },
    }
}

proof fn lemma_counted_in_spaces(
    spaces: Seq<SpaceView>,
    space: int,
    tab: int,
    pane: PaneSnapshot,
)
    requires
        0 <= space < spaces.len(),
        0 <= tab < spaces[space].tabs.len(),
        has_pane(spaces[space].tabs[tab].layout, pane),
    ensures
        places_of(pane).spaces(spaces) >= 1,
{
    let weight = places_of(pane);
    lemma_has_pane_counts(spaces[space].tabs[tab].layout, pane);
    lemma_total_member(spaces[space].tabs, tab, weight.of_tab());
    lemma_total_member(spaces, space, weight.of_space());
}

/// Two Panes that differ but share an identity use it twice.
proof fn lemma_uses_of_two(layout: PaneLayout, first: PaneSnapshot, second: PaneSnapshot)
    requires
        first != second,
        first.id == second.id,
    ensures
        places_of(first).layout(layout) + places_of(second).layout(layout) <= uses_of(
            first.id.0,
        ).layout(layout),
    decreases layout,
{
    match layout {
        PaneLayout::Pane(_) => {},
        PaneLayout::Split(split) => {
            lemma_uses_of_two(*split.first, first, second);
            lemma_uses_of_two(*split.second, first, second);
        },
    }
}

proof fn lemma_uses_of_two_in_tabs(tabs: Seq<TabView>, first: PaneSnapshot, second: PaneSnapshot)
    requires
        first != second,
        first.id == second.id,
    ensures
        total(tabs, places_of(first).of_tab()) + total(tabs, places_of(second).of_tab()) <= total(
            tabs,
            uses_of(first.id.0).of_tab(),
        ),
    decreases tabs.len(),
{
    if tabs.len() > 0 {
        lemma_uses_of_two_in_tabs(tabs.drop_last(), first, second);
        lemma_uses_of_two(tabs.last().layout, first, second);
    }
}

proof fn lemma_uses_of_two_in_spaces(
    spaces: Seq<SpaceView>,
    first: PaneSnapshot,
    second: PaneSnapshot,
)
    requires
        first != second,
        first.id == second.id,
    ensures
        places_of(first).spaces(spaces) + places_of(second).spaces(spaces) <= uses_of(
            first.id.0,
        ).spaces(spaces),
    decreases spaces.len(),
{
    if spaces.len() > 0 {
        lemma_uses_of_two_in_spaces(spaces.drop_last(), first, second);
        lemma_uses_of_two_in_tabs(spaces.last().tabs, first, second);
    }
}

proof fn lemma_named_session_counts(
    model: ModelView,
    session: TerminalSessionId,
    index: int,
)
    requires
        0 <= index < model.snapshot.sessions.len(),
        model.snapshot.sessions[index].id == session,
    ensures
        total(model.snapshot.sessions, sessions_named(session)) >= 1,
{
    lemma_total_member(model.snapshot.sessions, index, sessions_named(session));
}

/// A session of a hierarchy that commands have built is shown in a Pane, and
/// closing that Pane ends this session and no other.
pub proof fn law_exited_terminals_close_their_panes(
    model: ModelView,
    session: TerminalSessionId,
    index: int,
)
    requires
        model.well_formed(),
        0 <= index < model.snapshot.sessions.len(),
        model.snapshot.sessions[index].id == session,
    ensures
        pane_in_spaces(model.snapshot.spaces, session) is Some,
        ({
            let pane = pane_in_spaces(model.snapshot.spaces, session)->0;
            let command = CommandView::ClosePane { pane_id: pane.id };
            &&& model.pane(pane.id) == pane
            &&& model.change(command) is Ok
            &&& crate::core_model::laws::stopped_by(model, command) == seq![session]
            &&& model.has_ids_for(command)
        }),
{
    let spaces = model.snapshot.spaces;
    lemma_named_session_counts(model, session, index);
    assert(showing(session).spaces(spaces) >= 1);
    lemma_pane_in_spaces(spaces, session);
    let pane = pane_in_spaces(spaces, session)->0;
    let (space, tab) = choose|space: int, tab: int|
        0 <= space < spaces.len() && 0 <= tab < spaces[space].tabs.len() && has_pane(
            (#[trigger] spaces[space].tabs[tab]).layout,
            pane,
        );
    let query = TabQuery::WithPane(pane.id);
    lemma_has_pane_counts(spaces[space].tabs[tab].layout, pane);
    lemma_locate_exists(query, spaces, space, tab);
    lemma_located(query, spaces);
    let (s, t) = query.locate(spaces)->0;
    let layout = spaces[s].tabs[t].layout;
    lemma_found_pane(layout, pane.id);
    let found = layout.find_pane(pane.id)->0;
    assert(model.pane(pane.id) == found);
    if found != pane {
        lemma_counted_in_spaces(spaces, space, tab, pane);
        lemma_counted_in_spaces(spaces, s, t, found);
        lemma_uses_of_two_in_spaces(spaces, pane, found);
        assert(uses_of(pane.id.0).spaces(spaces) <= 1);
    }
}

/// Closes the Pane of a session that has ended by itself.
pub fn close_pane_of(model: &mut CoreModel, session: TerminalSessionId) -> (commit: CoreCommit)
    requires
        old(model)@.well_formed(),
        session_set(old(model)@.snapshot.sessions).contains(session.0),
    ensures
        ({
            let before = old(model)@;
            let pane = pane_in_spaces(before.snapshot.spaces, session)->0;
            let command = CommandView::ClosePane { pane_id: pane.id };
            let (after, expected) = before.applied(before.snapshot.revision, command)->Ok_0;
            &&& before.applied(before.snapshot.revision, command) is Ok
            &&& final(model)@ == after
            &&& commit@ == expected
            &&& expected.effects == seq![
                EffectView::StopTerminal { terminal_session_id: session },
            ]
            &&& final(model)@.well_formed()
        }),
{
    let snapshot = model.snapshot();
    let ghost before = model@;
    proof {
        let sessions = before.snapshot.sessions;
        let index = choose|i: int|
            0 <= i < sessions.len() && (#[trigger] sessions[i]).id.0 == session.0;
        assert(sessions[index].id == session);
        law_exited_terminals_close_their_panes(before, session, index);
        let pane = pane_in_spaces(before.snapshot.spaces, session)->0;
        let command = CommandView::ClosePane { pane_id: pane.id };
        law_effects(before, command);
        law_well_formed_kept(before, before.snapshot.revision, command);
        assert(before.change(command)->Ok_0.effects =~= seq![
            EffectView::StopTerminal { terminal_session_id: session },
        ]);
    }
    let mut closed: Option<CoreCommit> = None;
    if let Some(pane_id) = pane_for_terminal(&snapshot, session) {
        if let Ok(commit) = model.apply(snapshot.revision, CoreCommand::ClosePane { pane_id }) {
            closed = Some(commit);
        }
    }
    closed.unwrap()
}

} // verus!
