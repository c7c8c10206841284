//! What a window shows after it was told something.

use super::selection::{focused_terminal, lemma_has_panes, no_selection, UiSelection};
use super::view::{display_name, naming_session, CloseTarget, WindowView};
use crate::application_core::{CoreCommandOutcome, TerminalSnapshot};
use crate::core_driver::DriverUpdate;
use crate::core_model::edits::{distinct_ids, lemma_found, lemma_two_members};
use crate::core_model::hierarchy::{space_named, TabQuery};
use crate::core_model::laws::{lemma_locate_exists, lemma_located, uses_of};
use crate::core_model::layout::lemma_find_pane_in_panes;
use crate::core_model::{
    CommandView, CoreSnapshot, CreatedResource, HierarchyView, PaneId, PaneLayout, SpaceId, SpaceView, TabView,
    TerminalSessionId,
};
use crate::sequences::{first_index, is_first_index, lemma_first_index_none, lemma_first_index_some};
use crate::terminal::LifecycleView;
use crate::text::trimmed;
use vstd::prelude::*;
use vstd::string::*;

verus! {

/// A snapshot of a terminal that the hierarchy lists is shown as it came. The
/// window says that the process exited, or why it failed, and says nothing of a
/// process that runs. Nothing else changes.
pub proof fn law_listed_terminals_are_shown(
    window: WindowView,
    listed: int,
    snapshot: TerminalSnapshot,
    other: u64,
)
    requires
        0 <= listed < window.hierarchy.sessions.len(),
    ensures
        ({
            let session = window.hierarchy.sessions[listed].id;
            let after = window.told(
                DriverUpdate::Terminal { terminal_session_id: session, snapshot },
            );
            &&& after.terminals.contains_key(session.0)
            &&& after.terminals[session.0] == snapshot
            &&& match snapshot.lifecycle@ {
                LifecycleView::Running => !after.terminal_errors.contains_key(session.0),
                LifecycleView::Exited => after.terminal_errors.contains_key(session.0)
                    && after.terminal_errors[session.0] == "Terminal process exited"@,
                LifecycleView::Failed(error) => after.terminal_errors.contains_key(session.0)
                    && after.terminal_errors[session.0] == "Terminal process failed: "@ + error,
            }
            &&& other != session.0 ==> {
                &&& after.terminals.contains_key(other) == window.terminals.contains_key(other)
                &&& after.terminals[other] == window.terminals[other]
                &&& after.terminal_errors.contains_key(other)
                    == window.terminal_errors.contains_key(other)
                &&& after.terminal_errors[other] == window.terminal_errors[other]
            }
            &&& WindowView {
                terminals: window.terminals,
                terminal_errors: window.terminal_errors,
                ..after
            } == window
        }),
{
    assert(window.hierarchy.sessions[listed].id.0 == window.hierarchy.sessions[listed].id.0);
}

/// A snapshot of a terminal that the hierarchy does not list changes nothing.
pub proof fn law_other_terminals_are_not_shown(
    window: WindowView,
    session: TerminalSessionId,
    snapshot: TerminalSnapshot,
)
    requires
        forall|i: int|
            0 <= i < window.hierarchy.sessions.len() ==> (
            #[trigger] window.hierarchy.sessions[i]).id != session,
    ensures
        window.told(DriverUpdate::Terminal { terminal_session_id: session, snapshot }) == window,
{
    assert forall|i: int| 0 <= i < window.hierarchy.sessions.len() implies (
    #[trigger] window.hierarchy.sessions[i]).id.0 != session.0 by {
        assert(window.hierarchy.sessions[i].id != session);
    }
}

/// After a hierarchy came, the window keeps what it knows of the terminals and
/// the Spaces that are listed, and of no others.
pub proof fn law_hierarchies_keep_what_they_list(
    window: WindowView,
    hierarchy: CoreSnapshot,
    id: u64,
)
    ensures
        ({
            let after = window.told(DriverUpdate::Hierarchy(hierarchy));
            let sessions = hierarchy@.sessions;
            let spaces = hierarchy@.spaces;
            let listed = exists|i: int|
                0 <= i < sessions.len() && (#[trigger] sessions[i]).id == TerminalSessionId(id);
            let stands = exists|i: int|
                0 <= i < spaces.len() && (#[trigger] spaces[i]).id == SpaceId(id);
            &&& after.hierarchy == hierarchy@
            &&& after.terminals.contains_key(id) == (listed && window.terminals.contains_key(id))
            &&& after.terminals.contains_key(id) ==> after.terminals[id] == window.terminals[id]
            &&& after.terminal_errors.contains_key(id) == (listed
                && window.terminal_errors.contains_key(id))
            &&& after.terminal_errors.contains_key(id) ==> after.terminal_errors[id]
                == window.terminal_errors[id]
            &&& after.requested_sizes.contains_key(id) == (listed
                && window.requested_sizes.contains_key(id))
            &&& after.requested_sizes.contains_key(id) ==> after.requested_sizes[id]
                == window.requested_sizes[id]
            &&& after.expanded_agent_spaces.contains_key(id) == (stands
                && window.expanded_agent_spaces.contains_key(id))
            &&& after.agent_layout_transitions.contains_key(id) == (stands
                && window.agent_layout_transitions.contains_key(id))
            &&& after.agent_layout_transitions.contains_key(id)
                ==> after.agent_layout_transitions[id] == window.agent_layout_transitions[id]
            &&& WindowView {
                hierarchy: window.hierarchy,
                terminals: window.terminals,
                terminal_errors: window.terminal_errors,
                requested_sizes: window.requested_sizes,
                expanded_agent_spaces: window.expanded_agent_spaces,
                agent_layout_transitions: window.agent_layout_transitions,
                selection: window.selection,
                move_source: window.move_source,
                ..after
            } == window
        }),
{
    let sessions = hierarchy@.sessions;
    let spaces = hierarchy@.spaces;
    if exists|i: int| 0 <= i < sessions.len() && (#[trigger] sessions[i]).id.0 == id {
        let i = choose|i: int| 0 <= i < sessions.len() && (#[trigger] sessions[i]).id.0 == id;
        assert(sessions[i].id == TerminalSessionId(id));
    }
    if exists|i: int| 0 <= i < spaces.len() && (#[trigger] spaces[i]).id.0 == id {
        let i = choose|i: int| 0 <= i < spaces.len() && (#[trigger] spaces[i]).id.0 == id;
        assert(spaces[i].id == SpaceId(id));
    }
}

/// A Pane goes on moving for as long as a Tab shows it.
pub proof fn law_moves_end_with_their_pane(
    window: WindowView,
    hierarchy: CoreSnapshot,
    pane_id: PaneId,
)
    requires
        window.move_source == Some(pane_id),
    ensures
        ({
            let spaces = hierarchy@.spaces;
            let after = window.told(DriverUpdate::Hierarchy(hierarchy));
            if exists|space: int, tab: int|
                0 <= space < spaces.len() && 0 <= tab < spaces[space].tabs.len()
                    && #[trigger] spaces[space].tabs[tab].layout.holds_pane(pane_id) {
                after.move_source == Some(pane_id)
            } else {
                after.move_source is None
            }
        }),
{
    lemma_located_somewhere(hierarchy@.spaces, pane_id);
}

proof fn lemma_located_somewhere(spaces: Seq<SpaceView>, pane_id: PaneId)
    ensures
        (TabQuery::WithPane(pane_id).locate(spaces) is Some) == exists|space: int, tab: int|
            0 <= space < spaces.len() && 0 <= tab < spaces[space].tabs.len()
                && #[trigger] spaces[space].tabs[tab].layout.holds_pane(pane_id),
{
    let query = TabQuery::WithPane(pane_id);
    if query.locate(spaces) is Some {
        lemma_located(query, spaces);
        let (space, tab) = query.locate(spaces)->0;
        assert(spaces[space].tabs[tab].layout.holds_pane(pane_id));
    }
    if exists|space: int, tab: int|
        0 <= space < spaces.len() && 0 <= tab < spaces[space].tabs.len()
            && #[trigger] spaces[space].tabs[tab].layout.holds_pane(pane_id) {
        let (space, tab) = choose|space: int, tab: int|
            0 <= space < spaces.len() && 0 <= tab < spaces[space].tabs.len()
                && #[trigger] spaces[space].tabs[tab].layout.holds_pane(pane_id);
        lemma_locate_exists(query, spaces, space, tab);
    }
}

/// A selection settles on its Space, its Tab there and its Pane there, each where
/// it is, and on the first in its place where it is not.
pub proof fn law_selections_settle_where_they_can(
    selection: UiSelection,
    spaces: Seq<SpaceView>,
    space: int,
    tab: int,
)
    requires
        0 <= space < spaces.len(),
        0 <= tab < spaces[space].tabs.len(),
        match selection.space_id {
            Some(space_id) => stands_at(
                spaces.map_values(|space: SpaceView| space.id),
                space_id,
                space,
            ),
            None => space == 0,
        },
        match selection.tab_id {
            Some(tab_id) => stands_at(
                spaces[space].tabs.map_values(|tab: TabView| tab.id),
                tab_id,
                tab,
            ),
            None => tab == 0,
        },
    ensures
        ({
            let settled = selection.settled(spaces);
            let panes = spaces[space].tabs[tab].layout.panes();
            &&& settled.space_id == Some(spaces[space].id)
            &&& settled.tab_id == Some(spaces[space].tabs[tab].id)
            &&& if exists|i: int|
                0 <= i < panes.len() && Some((#[trigger] panes[i]).id) == selection.pane_id {
                settled.pane_id == selection.pane_id
            } else {
                settled.pane_id == Some(panes[0].id)
            }
        }),
{
    let ids = spaces.map_values(|space: SpaceView| space.id);
    let tabs = spaces[space].tabs;
    let tab_ids = tabs.map_values(|tab: TabView| tab.id);
    if let Some(space_id) = selection.space_id {
        let named = space_named(space_id);
        if ids[space] == space_id {
            assert(is_first_index(spaces, named, space)) by {
                assert forall|i: int| 0 <= i < space implies !named(#[trigger] spaces[i]) by {
                    assert(ids[i] != space_id);
                }
            }
            lemma_first_index_some(spaces, named, space);
        } else {
            assert forall|i: int| 0 <= i < spaces.len() implies !named(#[trigger] spaces[i]) by {
                assert(ids[i] != space_id);
            }
            lemma_first_index_none(spaces, named);
        }
    }
    if let Some(tab_id) = selection.tab_id {
        let named = TabQuery::Named(tab_id).predicate();
        if tab_ids[tab] == tab_id {
            assert(is_first_index(tabs, named, tab)) by {
                assert forall|i: int| 0 <= i < tab implies !named(#[trigger] tabs[i]) by {
                    assert(tab_ids[i] != tab_id);
                }
            }
            lemma_first_index_some(tabs, named, tab);
        } else {
            assert forall|i: int| 0 <= i < tabs.len() implies !named(#[trigger] tabs[i]) by {
                assert(tab_ids[i] != tab_id);
            }
            lemma_first_index_none(tabs, named);
        }
    }
    if let Some(pane_id) = selection.pane_id {
        lemma_pane_is_held(tabs[tab].layout, pane_id);
    }
}

/// Whether `index` is where `id` first stands, or the first place where `id`
/// stands nowhere.
pub open spec fn stands_at<T>(ids: Seq<T>, id: T, index: int) -> bool {
    if ids.contains(id) {
        ids[index] == id && forall|i: int| 0 <= i < index ==> #[trigger] ids[i] != id
    } else {
        index == 0
    }
}

/// A layout holds the Panes that are listed.
proof fn lemma_pane_is_held(layout: PaneLayout, pane_id: PaneId)
    ensures
        layout.holds_pane(pane_id) == exists|i: int|
            0 <= i < layout.panes().len() && (#[trigger] layout.panes()[i]).id == pane_id,
{
    lemma_find_pane_in_panes(layout, pane_id);
}

/// An accepted command shows what it brought into being, or the Pane that was to
/// be selected after it.
pub proof fn law_accepted_commands_show_their_result(
    window: WindowView,
    command_id: u64,
    outcome: CoreCommandOutcome,
    space: int,
    tab: int,
    pane_id: PaneId,
)
    requires
        distinct_ids(window.hierarchy.spaces),
        0 <= space < window.hierarchy.spaces.len(),
        0 <= tab < window.hierarchy.spaces[space].tabs.len(),
        window.hierarchy.spaces[space].tabs[tab].layout.holds_pane(pane_id),
        if window.selections_after_commands.contains_key(command_id) {
            window.selections_after_commands[command_id] == pane_id
        } else {
            match outcome.created {
                CreatedResource::Nothing => false,
                CreatedResource::Space { space_id, tab_id, pane_id: created, .. } => {
                    &&& space_id == window.hierarchy.spaces[space].id
                    &&& tab_id == window.hierarchy.spaces[space].tabs[tab].id
                    &&& created == pane_id
                },
                CreatedResource::Tab { tab_id, pane_id: created, .. } => {
                    &&& tab_id == window.hierarchy.spaces[space].tabs[tab].id
                    &&& created == pane_id
                },
                CreatedResource::Pane { pane_id: created, .. } => created == pane_id,
            }
        },
    ensures
        window.told(DriverUpdate::CommandAccepted { command_id, outcome }).selection == (
        UiSelection {
            space_id: Some(window.hierarchy.spaces[space].id),
            tab_id: Some(window.hierarchy.spaces[space].tabs[tab].id),
            pane_id: Some(pane_id),
        }),
{
    let spaces = window.hierarchy.spaces;
    let selected = UiSelection {
        space_id: Some(spaces[space].id),
        tab_id: Some(spaces[space].tabs[tab].id),
        pane_id: Some(pane_id),
    };
    lemma_found(spaces, TabQuery::WithPane(pane_id), space, tab);
    lemma_found(spaces, TabQuery::Named(spaces[space].tabs[tab].id), space, tab);
    lemma_space_stands(spaces, space);
    assert(selected.settled(spaces) == selected);
}

proof fn lemma_space_stands(spaces: Seq<SpaceView>, space: int)
    requires
        distinct_ids(spaces),
        0 <= space < spaces.len(),
    ensures
        first_index(spaces, space_named(spaces[space].id)) == Some(space),
{
    let id = spaces[space].id;
    assert(uses_of(id.0).spaces(spaces) <= 1);
    assert forall|i: int| 0 <= i < space implies !space_named(id)(#[trigger] spaces[i]) by {
        if spaces[i].id == id {
            lemma_two_members(spaces, i, space, uses_of(id.0).of_space());
        }
    }
    lemma_first_index_some(spaces, space_named(id), space);
}

/// An answer ends the wait for its command, and for no other: the split that it
/// resized shows its own ratio again.
pub proof fn law_answers_end_the_wait(
    window: WindowView,
    update: DriverUpdate,
    command_id: u64,
    other: u64,
)
    requires
        match update {
            DriverUpdate::CommandAccepted { command_id: answered, .. } => answered == command_id,
            DriverUpdate::CommandRejected { command_id: answered, .. } => answered == command_id,
            _ => false,
        },
    ensures
        ({
            let after = window.told(update);
            let pending = window.pending_split_resizes;
            &&& !after.pending_split_resizes.contains_key(command_id)
            &&& !after.selections_after_commands.contains_key(command_id)
            &&& pending.contains_key(command_id) ==> !after.preview_split_ratios.contains_key(
                pending[command_id].0,
            )
            &&& !(pending.contains_key(command_id) && pending[command_id].0 == other) ==> {
                &&& after.preview_split_ratios.contains_key(other)
                    == window.preview_split_ratios.contains_key(other)
                &&& after.preview_split_ratios[other] == window.preview_split_ratios[other]
            }
            &&& other != command_id ==> {
                &&& after.pending_split_resizes.contains_key(other) == pending.contains_key(other)
                &&& after.pending_split_resizes[other] == pending[other]
                &&& after.selections_after_commands.contains_key(other)
                    == window.selections_after_commands.contains_key(other)
                &&& after.selections_after_commands[other]
                    == window.selections_after_commands[other]
            }
            &&& match update {
                DriverUpdate::CommandRejected { error, .. } => after.global_error == Some(error@)
                    && after.selection == window.selection,
                _ => after.global_error is None,
            }
            &&& WindowView {
                pending_split_resizes: pending,
                selections_after_commands: window.selections_after_commands,
                preview_split_ratios: window.preview_split_ratios,
                global_error: window.global_error,
                selection: window.selection,
                ..after
            } == window
        }),
{
}

/// After an error of the driver no answer comes: the window waits for none, drags
/// no seam and says what went wrong. It still shows what it knows.
pub proof fn law_errors_end_every_wait(window: WindowView, error: String, id: u64)
    ensures
        ({
            let after = window.told(DriverUpdate::Error(error));
            &&& !after.pending_split_resizes.contains_key(id)
            &&& !after.selections_after_commands.contains_key(id)
            &&& !after.preview_split_ratios.contains_key(id)
            &&& after.split_dragging is None
            &&& after.global_error == Some(error@)
            &&& WindowView {
                pending_split_resizes: window.pending_split_resizes,
                selections_after_commands: window.selections_after_commands,
                preview_split_ratios: window.preview_split_ratios,
                split_dragging: window.split_dragging,
                global_error: window.global_error,
                ..after
            } == window
        }),
{
}

/// The terminal with the focus is that of the selected Pane.
pub proof fn law_the_selected_pane_has_the_focus(
    selection: UiSelection,
    hierarchy: HierarchyView,
    space: int,
    tab: int,
    pane: int,
)
    requires
        distinct_ids(hierarchy.spaces),
        0 <= space < hierarchy.spaces.len(),
        0 <= tab < hierarchy.spaces[space].tabs.len(),
        0 <= pane < hierarchy.spaces[space].tabs[tab].layout.panes().len(),
        forall|i: int|
            0 <= i < pane ==> (#[trigger] hierarchy.spaces[space].tabs[tab].layout.panes()[i]).id
                != hierarchy.spaces[space].tabs[tab].layout.panes()[pane].id,
        selection.space_id == Some(hierarchy.spaces[space].id),
        selection.tab_id == Some(hierarchy.spaces[space].tabs[tab].id),
        selection.pane_id == Some(hierarchy.spaces[space].tabs[tab].layout.panes()[pane].id),
    ensures
        focused_terminal(selection, hierarchy) == Some(
            hierarchy.spaces[space].tabs[tab].layout.panes()[pane].terminal_session_id,
        ),
{
    let spaces = hierarchy.spaces;
    lemma_found(spaces, TabQuery::Named(spaces[space].tabs[tab].id), space, tab);
    lemma_space_stands(spaces, space);
    lemma_first_of_its_name(spaces[space].tabs[tab].layout, pane);
}

proof fn lemma_first_of_its_name(layout: PaneLayout, pane: int)
    requires
        0 <= pane < layout.panes().len(),
        forall|i: int|
            0 <= i < pane ==> (#[trigger] layout.panes()[i]).id != layout.panes()[pane].id,
    ensures
        layout.find_pane(layout.panes()[pane].id) == Some(layout.panes()[pane]),
    decreases layout,
{
    let id = layout.panes()[pane].id;
    if let PaneLayout::Split(split) = layout {
        let first = split.first.panes();
        let second = split.second.panes();
        let count = first.len() as int;
        assert forall|i: int| 0 <= i < count implies (#[trigger] first[i]) == layout.panes()[i] by {
        }
        assert forall|i: int| 0 <= i < second.len() implies (#[trigger] second[i])
            == layout.panes()[count + i] by {
        }
        if pane < count {
            lemma_first_of_its_name(*split.first, pane);
        } else {
            lemma_find_pane_in_panes(*split.first, id);
            assert(second[pane - count] == layout.panes()[pane]);
            lemma_first_of_its_name(*split.second, pane - count);
        }
    }
}

/// A Tab goes by the name that it was given. Else it goes by the title of the
/// terminal with the focus, or of its first where the focus is elsewhere; else by
/// the directory of that terminal; and else by the name that it came with.
pub proof fn law_tabs_go_by_what_is_known_of_them(
    window: WindowView,
    tab: TabView,
    pane: int,
    directory: Option<Seq<char>>,
)
    requires
        0 <= pane < tab.layout.panes().len(),
        forall|i: int|
            0 <= i < pane ==> (#[trigger] tab.layout.panes()[i]).id != tab.layout.panes()[pane].id,
        if window.selection.tab_id == Some(tab.id) && exists|i: int|
            0 <= i < tab.layout.panes().len() && Some((#[trigger] tab.layout.panes()[i]).id)
                == window.selection.pane_id {
            window.selection.pane_id == Some(tab.layout.panes()[pane].id)
        } else {
            pane == 0
        },
    ensures
        ({
            let session = tab.layout.panes()[pane].terminal_session_id;
            let name = display_name(window, tab, directory);
            let known = window.terminals.contains_key(session.0);
            let title = window.terminals[session.0].title;
            let titled = known && title is Some && trimmed(title->0@).len() > 0;
            &&& naming_session(window.selection, tab) == Some(session)
            &&& tab.name_is_custom ==> name == tab.name
            &&& !tab.name_is_custom && titled ==> name == trimmed(title->0@)
            &&& !tab.name_is_custom && !titled && directory is Some && directory->0.len() > 0
                ==> name == directory->0
            &&& !titled && (directory is None || directory->0.len() == 0) ==> name == tab.name
        }),
{
    if let Some(pane_id) = window.selection.pane_id {
        lemma_pane_is_held(tab.layout, pane_id);
        if window.selection.tab_id == Some(tab.id) && tab.layout.holds_pane(pane_id) {
            let i = choose|i: int|
                0 <= i < tab.layout.panes().len() && (#[trigger] tab.layout.panes()[i]).id
                    == pane_id;
            assert(Some(tab.layout.panes()[i].id) == window.selection.pane_id);
        }
    }
    lemma_first_of_its_name(tab.layout, pane);
    lemma_has_panes(tab.layout);
}

/// A command that was handed over clears what was said before, and one that could not
/// be says why; nothing else changes.
pub proof fn law_refused_commands_say_why(window: WindowView, result: Result<u64, String>)
    ensures
        result is Ok ==> window.submitted(result).global_error is None,
        result matches Err(error) ==> window.submitted(result).global_error == Some(error@),
        (WindowView { global_error: window.global_error, ..window.submitted(result) }) == window,
{
}

/// A window that has selected nothing yet settles on the first Pane of the first Tab
/// of the first Space.
pub proof fn law_windows_begin_at_the_front(spaces: Seq<SpaceView>)
    ensures
        spaces.len() == 0 ==> no_selection().settled(spaces) == (UiSelection {
            space_id: None,
            tab_id: None,
            pane_id: None,
        }),
        spaces.len() > 0 && spaces[0].tabs.len() > 0 ==> no_selection().settled(spaces) == (
        UiSelection {
            space_id: Some(spaces[0].id),
            tab_id: Some(spaces[0].tabs[0].id),
            pane_id: Some(spaces[0].tabs[0].layout.panes()[0].id),
        }),
{
}

/// Closing something closes it and nothing wider or narrower.
pub proof fn law_targets_close_themselves(target: CloseTarget)
    ensures
        target matches CloseTarget::Space(space_id) ==> target.spec_command() == (
        CommandView::CloseSpace { space_id }),
        target matches CloseTarget::Tab(tab_id) ==> target.spec_command() == (
        CommandView::CloseTab { tab_id }),
        target matches CloseTarget::Pane(pane_id) ==> target.spec_command() == (
        CommandView::ClosePane { pane_id }),
{
}

} // verus!
