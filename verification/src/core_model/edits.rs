//! What each command does to the Spaces, Tabs and Panes, seen from outside.

use super::hierarchy::{space_named, TabQuery};
use super::laws::{
    law_well_formed_kept, lemma_divided_without, lemma_located, lemma_unused_in_layout, uses_of,
    Weight,
};
use super::layout::lemma_find_pane_in_panes;
use super::model::ModelView;
use super::{
    CommandView, CoreModelError, CreatedResource, EffectView, PaneId, PaneLayout, PaneSnapshot,
    ResourceKind, SessionView, SpaceId, SpaceView, SplitAxis, SplitId, SplitPlacement, SplitRatio,
    SplitSnapshot, TabId, TabView, TerminalSessionId,
};
use crate::sequences::{
    first_index, lemma_first_index_none, lemma_first_index_some, lemma_total_member,
    lemma_total_remove, total,
};
use vstd::prelude::*;

verus! {

/// Two items weigh together no more than all.
pub proof fn lemma_two_members<T>(items: Seq<T>, i: int, j: int, weight: spec_fn(T) -> nat)
    requires
        0 <= i < items.len(),
        0 <= j < items.len(),
        i != j,
    ensures
        weight(items[i]) + weight(items[j]) <= total(items, weight),
{
    lemma_total_remove(items, i, weight);
    let rest = items.remove(i);
    let k = if j < i {
        j
    } else {
        j - 1
    };
    assert(rest[k] == items[j]);
    lemma_total_member(rest, k, weight);
}

/// What weighs at most one in all stands in one Tab.
pub proof fn lemma_one_tab(
    weight: Weight,
    spaces: Seq<SpaceView>,
    space: int,
    tab: int,
    other_space: int,
    other_tab: int,
)
    requires
        weight.spaces(spaces) <= 1,
        0 <= space < spaces.len(),
        0 <= tab < spaces[space].tabs.len(),
        0 <= other_space < spaces.len(),
        0 <= other_tab < spaces[other_space].tabs.len(),
        weight.of_tab()(spaces[space].tabs[tab]) >= 1,
        weight.of_tab()(spaces[other_space].tabs[other_tab]) >= 1,
    ensures
        space == other_space,
        tab == other_tab,
{
    lemma_total_member(spaces[space].tabs, tab, weight.of_tab());
    lemma_total_member(spaces[other_space].tabs, other_tab, weight.of_tab());
    if space != other_space {
        lemma_two_members(spaces, space, other_space, weight.of_space());
    } else {
        lemma_total_member(spaces, space, weight.of_space());
        if tab != other_tab {
            lemma_two_members(spaces[space].tabs, tab, other_tab, weight.of_tab());
        }
    }
}

/// A layout with a Pane of some identity, or one that shows a session of that
/// identity, uses the identity.
pub proof fn lemma_pane_is_counted(layout: PaneLayout, place: int)
    requires
        0 <= place < layout.panes().len(),
    ensures
        uses_of(layout.panes()[place].id.0).layout(layout) >= 1,
        uses_of(layout.panes()[place].terminal_session_id.0).layout(layout) >= 1,
        layout.holds_pane(layout.panes()[place].id),
    decreases layout,
{
    match layout {
        PaneLayout::Pane(_) => {},
        PaneLayout::Split(split) => {
            let count = split.first.panes().len();
            if place < count {
                assert(layout.panes()[place] == split.first.panes()[place]);
                lemma_pane_is_counted(*split.first, place);
            } else {
                assert(layout.panes()[place] == split.second.panes()[place - count]);
                lemma_pane_is_counted(*split.second, place - count);
            }
        },
    }
}

/// The identity that a query asks for.
pub open spec fn asked_id(query: TabQuery) -> u64 {
    match query {
        TabQuery::Named(tab_id) => tab_id.0,
        TabQuery::WithPane(pane_id) => pane_id.0,
        TabQuery::WithSplit(split_id) => split_id.0,
    }
}

proof fn lemma_split_is_counted(layout: PaneLayout, split_id: SplitId)
    requires
        layout.holds_split(split_id),
    ensures
        uses_of(split_id.0).layout(layout) >= 1,
    decreases layout,
{
    if let PaneLayout::Split(split) = layout {
        if split.id != split_id {
            if split.first.holds_split(split_id) {
                lemma_split_is_counted(*split.first, split_id);
            } else {
                lemma_split_is_counted(*split.second, split_id);
            }
        }
    }
}

pub proof fn lemma_match_is_counted(query: TabQuery, tab: TabView)
    requires
        query.matches(tab),
    ensures
        uses_of(asked_id(query)).of_tab()(tab) >= 1,
{
    match query {
        TabQuery::Named(_) => {},
        TabQuery::WithPane(pane_id) => {
            if uses_of(pane_id.0).layout(tab.layout) == 0 {
                lemma_unused_in_layout(tab.layout, pane_id.0);
            }
        },
        TabQuery::WithSplit(split_id) => {
            lemma_split_is_counted(tab.layout, split_id);
        },
    }
}

/// Whether no identity is used twice.
pub open spec fn distinct_ids(spaces: Seq<SpaceView>) -> bool {
    forall|id: u64| #[trigger] uses_of(id).spaces(spaces) <= 1
}

/// Where identities are distinct the Tab that matches is the one that is found.
pub proof fn lemma_found(spaces: Seq<SpaceView>, query: TabQuery, space: int, tab: int)
    requires
        distinct_ids(spaces),
        0 <= space < spaces.len(),
        0 <= tab < spaces[space].tabs.len(),
        query.matches(spaces[space].tabs[tab]),
    ensures
        query.locate(spaces) == Some((space, tab)),
{
    super::laws::lemma_locate_exists(query, spaces, space, tab);
    lemma_located(query, spaces);
    let (s, t) = query.locate(spaces)->0;
    lemma_match_is_counted(query, spaces[space].tabs[tab]);
    lemma_match_is_counted(query, spaces[s].tabs[t]);
    assert(uses_of(asked_id(query)).spaces(spaces) <= 1);
    lemma_one_tab(uses_of(asked_id(query)), spaces, space, tab, s, t);
}

/// In a well formed hierarchy the Space of an identity is the one that is found.
pub proof fn lemma_space_found(model: ModelView, space: int)
    requires
        model.well_formed(),
        0 <= space < model.snapshot.spaces.len(),
    ensures
        first_index(
            model.snapshot.spaces,
            space_named(model.snapshot.spaces[space].id),
        ) == Some(space),
{
    let spaces = model.snapshot.spaces;
    let id = spaces[space].id;
    assert(uses_of(id.0).spaces(spaces) <= 1);
    assert forall|i: int| 0 <= i < space implies !space_named(id)(#[trigger] spaces[i]) by {
        if spaces[i].id == id {
            lemma_two_members(spaces, i, space, uses_of(id.0).of_space());
        }
    }
    lemma_first_index_some(spaces, space_named(id), space);
}

/// Where identities are distinct a Pane is held once.
pub proof fn lemma_pane_place(spaces: Seq<SpaceView>, space: int, tab: int, place: int)
    requires
        distinct_ids(spaces),
        0 <= space < spaces.len(),
        0 <= tab < spaces[space].tabs.len(),
        0 <= place < spaces[space].tabs[tab].layout.panes().len(),
    ensures
        ({
            let layout = spaces[space].tabs[tab].layout;
            let id = layout.panes()[place].id;
            &&& layout.holds_pane(id)
            &&& uses_of(id.0).layout(layout) <= 1
            &&& TabQuery::WithPane(id).locate(spaces) == Some((space, tab))
        }),
{
    let layout = spaces[space].tabs[tab].layout;
    let id = layout.panes()[place].id;
    lemma_pane_is_counted(layout, place);
    lemma_found(spaces, TabQuery::WithPane(id), space, tab);
    assert(uses_of(id.0).spaces(spaces) <= 1);
    lemma_total_member(spaces[space].tabs, tab, uses_of(id.0).of_tab());
    lemma_total_member(spaces, space, uses_of(id.0).of_space());
}

/// Whether `after` is `before` but for the layout of one Tab.
pub open spec fn only_layout_differs(
    before: Seq<SpaceView>,
    after: Seq<SpaceView>,
    space: int,
    tab: int,
) -> bool {
    &&& after.len() == before.len()
    &&& forall|s: int|
        0 <= s < before.len() ==> {
            &&& (#[trigger] after[s]).id == before[s].id
            &&& after[s].name == before[s].name
            &&& after[s].name_is_custom == before[s].name_is_custom
            &&& after[s].directory == before[s].directory
            &&& after[s].tabs.len() == before[s].tabs.len()
        }
    &&& forall|s: int, t: int|
        #![trigger after[s].tabs[t]]
        0 <= s < before.len() && 0 <= t < before[s].tabs.len() ==> {
            &&& after[s].tabs[t].id == before[s].tabs[t].id
            &&& after[s].tabs[t].name == before[s].tabs[t].name
            &&& after[s].tabs[t].name_is_custom == before[s].tabs[t].name_is_custom
            &&& (s != space || t != tab) ==> after[s].tabs[t].layout == before[s].tabs[t].layout
        }
}

/// The split of a layout that has an identity, outer splits before inner ones.
pub open spec fn split_of(layout: PaneLayout, split_id: SplitId) -> Option<SplitSnapshot>
    decreases layout,
{
    match layout {
        PaneLayout::Pane(_) => None,
        PaneLayout::Split(split) => if split.id == split_id {
            Some(split)
        } else {
            match split_of(*split.first, split_id) {
                Some(found) => Some(found),
                None => split_of(*split.second, split_id),
            }
        },
    }
}

proof fn lemma_unused_split(layout: PaneLayout, split_id: SplitId)
    requires
        uses_of(split_id.0).layout(layout) == 0,
    ensures
        split_of(layout, split_id) is None,
    decreases layout,
{
    if let PaneLayout::Split(split) = layout {
        lemma_unused_split(*split.first, split_id);
        lemma_unused_split(*split.second, split_id);
    }
}

/// Dividing a Pane puts the new one next to it, and both under a split of their
/// own.
pub proof fn lemma_divided(
    layout: PaneLayout,
    place: int,
    split_id: SplitId,
    axis: SplitAxis,
    ratio: SplitRatio,
    placement: SplitPlacement,
    new_pane: PaneSnapshot,
)
    requires
        0 <= place < layout.panes().len(),
        uses_of(layout.panes()[place].id.0).layout(layout) <= 1,
        uses_of(split_id.0).layout(layout) == 0,
    ensures
        ({
            let pane = layout.panes()[place];
            let after = layout.divided(pane.id, split_id, axis, ratio, placement, new_pane);
            let made = split_of(after, split_id);
            &&& after.panes() == layout.panes().insert(
                if placement == SplitPlacement::Before {
                    place
                } else {
                    place + 1
                },
                new_pane,
            )
            &&& made is Some
            &&& made->0.axis == axis
            &&& made->0.ratio == ratio
            &&& *made->0.first == PaneLayout::Pane(
                if placement == SplitPlacement::Before {
                    new_pane
                } else {
                    pane
                },
            )
            &&& *made->0.second == PaneLayout::Pane(
                if placement == SplitPlacement::Before {
                    pane
                } else {
                    new_pane
                },
            )
        }),
    decreases layout,
{
    let pane = layout.panes()[place];
    let after = layout.divided(pane.id, split_id, axis, ratio, placement, new_pane);
    match layout {
        PaneLayout::Pane(only) => {
            assert(layout.panes() =~= seq![only]);
            reveal_with_fuel(PaneLayout::panes, 3);
            assert(after.panes() =~= layout.panes().insert(
                if placement == SplitPlacement::Before {
                    place
                } else {
                    place + 1
                },
                new_pane,
            ));
        },
        PaneLayout::Split(split) => {
            let count = split.first.panes().len() as int;
            if place < count {
                assert(pane == split.first.panes()[place]);
                lemma_pane_is_counted(*split.first, place);
                lemma_divided(*split.first, place, split_id, axis, ratio, placement, new_pane);
            } else {
                assert(pane == split.second.panes()[place - count]);
                lemma_pane_is_counted(*split.second, place - count);
                if split.first.holds_pane(pane.id) {
                    lemma_find_pane_in_panes(*split.first, pane.id);
                    let i = choose|i: int|
                        0 <= i < split.first.panes().len() && (#[trigger] split.first.panes()[i]).id
                            == pane.id;
                    lemma_pane_is_counted(*split.first, i);
                }
                lemma_divided(
                    *split.second,
                    place - count,
                    split_id,
                    axis,
                    ratio,
                    placement,
                    new_pane,
                );
                lemma_unused_split(*split.first, split_id);
            }
            assert(after.panes() =~= layout.panes().insert(
                if placement == SplitPlacement::Before {
                    place
                } else {
                    place + 1
                },
                new_pane,
            ));
        },
    }
}

/// Nothing has an identity that was not given out.
proof fn lemma_new_id(model: ModelView, space: int, tab: int, id: u64)
    requires
        model.well_formed(),
        id >= model.next_id,
        0 <= space < model.snapshot.spaces.len(),
        0 <= tab < model.snapshot.spaces[space].tabs.len(),
    ensures
        uses_of(id).layout(model.snapshot.spaces[space].tabs[tab].layout) == 0,
{
    let spaces = model.snapshot.spaces;
    assert(uses_of(id).spaces(spaces) > 0 ==> 0 < id < model.next_id);
    lemma_total_member(spaces, space, uses_of(id).of_space());
    lemma_total_member(spaces[space].tabs, tab, uses_of(id).of_tab());
}

/// Splitting a Pane that is there succeeds. It puts one new Pane directly before or
/// after it in its Tab, as asked, both under a new split of the axis and the
/// ratio asked for. No other Tab, and no name, changes. The new Pane shows a new
/// session, which starts in the directory of the Space.
pub proof fn law_splits_stand_beside_their_pane(
    model: ModelView,
    space: int,
    tab: int,
    place: int,
    axis: SplitAxis,
    placement: SplitPlacement,
    ratio: SplitRatio,
)
    requires
        model.well_formed(),
        model.next_id + 3 <= u64::MAX,
        0 <= space < model.snapshot.spaces.len(),
        0 <= tab < model.snapshot.spaces[space].tabs.len(),
        0 <= place < model.snapshot.spaces[space].tabs[tab].layout.panes().len(),
    ensures
        ({
            let before = model.snapshot;
            let layout = before.spaces[space].tabs[tab].layout;
            let pane = layout.panes()[place];
            let applied = model.applied(
                before.revision,
                CommandView::SplitPane { pane_id: pane.id, axis, placement, ratio },
            );
            &&& applied is Ok
            &&& ({
                let (after, commit) = applied->Ok_0;
                let grown = after.snapshot.spaces[space].tabs[tab].layout;
                commit.created matches CreatedResource::Pane {
                    pane_id,
                    split_id,
                    terminal_session_id,
                } && ({
                    let made = PaneSnapshot { id: pane_id, terminal_session_id };
                    let split = split_of(grown, split_id);
                    &&& only_layout_differs(before.spaces, after.snapshot.spaces, space, tab)
                    &&& grown.panes() == layout.panes().insert(
                        if placement == SplitPlacement::Before {
                            place
                        } else {
                            place + 1
                        },
                        made,
                    )
                    &&& split is Some && split->0.axis == axis && split->0.ratio == ratio
                    &&& placement == SplitPlacement::Before ==> *split->0.first
                        == PaneLayout::Pane(made) && *split->0.second == PaneLayout::Pane(pane)
                    &&& placement == SplitPlacement::After ==> *split->0.first
                        == PaneLayout::Pane(pane) && *split->0.second == PaneLayout::Pane(made)
                    &&& after.snapshot.sessions == before.sessions.push(
                        SessionView {
                            id: terminal_session_id,
                            working_directory: before.spaces[space].directory,
                        },
                    )
                    &&& commit.effects == seq![
                        EffectView::LaunchTerminal {
                            terminal_session_id,
                            working_directory: before.spaces[space].directory,
                        },
                    ]
                })
            })
        }),
{
    let layout = model.snapshot.spaces[space].tabs[tab].layout;
    let pane = layout.panes()[place];
    lemma_pane_place(model.snapshot.spaces, space, tab, place);
    lemma_new_id(model, space, tab, model.id(2));
    lemma_divided(
        layout,
        place,
        SplitId(model.id(2)),
        axis,
        ratio,
        placement,
        PaneSnapshot {
            id: PaneId(model.id(0)),
            terminal_session_id: TerminalSessionId(model.id(1)),
        },
    );
}

/// A session that a command starts is shown by a Pane after it, and starts in the
/// directory of the Space that holds that Pane: so says the effect, and so say
/// the sessions. Creating a Space, a Tab or a Pane starts one session, and
/// nothing else starts any.
pub proof fn law_sessions_start_in_their_space(
    model: ModelView,
    expected_revision: u64,
    command: CommandView,
)
    requires
        model.well_formed(),
        model.has_ids_for(command),
        model.applied(expected_revision, command) is Ok,
    ensures
        ({
            let (after, commit) = model.applied(expected_revision, command)->Ok_0;
            let starts = command is CreateSpace || command is CreateTab || command is SplitPane;
            &&& starts ==> commit.effects.len() == 1 && commit.effects[0] is LaunchTerminal
            &&& !starts ==> forall|e: int|
                0 <= e < commit.effects.len() ==> (#[trigger] commit.effects[e]) is StopTerminal
            &&& starts ==> ({
                let session = commit.effects[0]->LaunchTerminal_terminal_session_id;
                let directory = commit.effects[0]->working_directory;
                let spaces = after.snapshot.spaces;
                let sessions = after.snapshot.sessions;
                &&& exists|s: int, t: int|
                    #![trigger spaces[s].tabs[t]]
                    0 <= s < spaces.len() && 0 <= t < spaces[s].tabs.len()
                        && spaces[s].tabs[t].layout.session_ids().contains(session)
                &&& forall|s: int, t: int|
                    #![trigger spaces[s].tabs[t]]
                    0 <= s < spaces.len() && 0 <= t < spaces[s].tabs.len()
                        && spaces[s].tabs[t].layout.session_ids().contains(session)
                        ==> spaces[s].directory == directory
                &&& exists|i: int|
                    0 <= i < sessions.len() && (#[trigger] sessions[i]).id == session
                &&& forall|i: int|
                    0 <= i < sessions.len() && (#[trigger] sessions[i]).id == session
                        ==> sessions[i].working_directory == directory
            })
        }),
{
    let (after, commit) = model.applied(expected_revision, command)->Ok_0;
    let before = model.snapshot.spaces;
    let spaces = after.snapshot.spaces;
    let sessions = after.snapshot.sessions;
    law_well_formed_kept(model, expected_revision, command);
    super::laws::law_effects(model, command);
    if command is CreateSpace || command is CreateTab || command is SplitPane {
        let session = commit.effects[0]->LaunchTerminal_terminal_session_id;
        let (space, tab, pane) = match command {
            CommandView::CreateSpace { .. } => (before.len() as int, 0int, model.id(2)),
            CommandView::CreateTab { space_id, .. } => {
                let space = first_index(before, space_named(space_id))->0;
                (space, before[space].tabs.len() as int, model.id(1))
            },
            CommandView::SplitPane { pane_id, .. } => {
                let (space, tab) = TabQuery::WithPane(pane_id).locate(before)->0;
                lemma_located(TabQuery::WithPane(pane_id), before);
                (space, tab, model.id(0))
            },
            _ => (0int, 0int, 0u64),
        };
        let shown = PaneSnapshot { id: PaneId(pane), terminal_session_id: session };
        let layout = spaces[space].tabs[tab].layout;
        if let CommandView::SplitPane { pane_id, axis, placement, ratio } = command {
            lemma_new_id(model, space, tab, pane);
            lemma_unused_in_layout(before[space].tabs[tab].layout, pane);
            lemma_divided_without(
                before[space].tabs[tab].layout,
                pane_id,
                SplitId(model.id(2)),
                axis,
                ratio,
                placement,
                shown,
            );
            lemma_find_pane_in_panes(layout, shown.id);
        } else {
            assert(layout == PaneLayout::Pane(shown));
            assert(layout.panes() =~= seq![shown]);
            assert(layout.panes()[0] == shown);
        }
        let k = layout.panes().index_of(shown);
        assert(layout.session_ids()[k] == session);
        assert(layout.session_ids().contains(session));
        lemma_pane_is_counted(layout, k);
        assert(spaces[space].tabs[tab] == spaces[space].tabs[tab]);
        assert forall|s: int, t: int|
            #![trigger spaces[s].tabs[t]]
            0 <= s < spaces.len() && 0 <= t < spaces[s].tabs.len()
                && spaces[s].tabs[t].layout.session_ids().contains(
                session,
            ) implies spaces[s].directory == commit.effects[0]->working_directory by {
            let other = spaces[s].tabs[t].layout;
            let i = other.session_ids().index_of(session);
            assert(other.panes()[i].terminal_session_id == session);
            lemma_pane_is_counted(other, i);
            assert(uses_of(session.0).spaces(spaces) <= 1);
            lemma_one_tab(uses_of(session.0), spaces, space, tab, s, t);
        }
        super::laws::law_started_sessions_are_new(model, command, session);
        let last = sessions.len() - 1;
        assert(sessions[last].id == session);
        assert forall|i: int|
            0 <= i < sessions.len() && (#[trigger] sessions[i]).id == session implies i == last by {
            if i < last {
                assert(model.snapshot.sessions[i] == sessions[i]);
                lemma_total_member(
                    model.snapshot.sessions,
                    i,
                    super::laws::sessions_named(session),
                );
            }
        }
    } else {
        assert forall|e: int| 0 <= e < commit.effects.len() implies (
        #[trigger] commit.effects[e]) is StopTerminal by {}
    }
}

/// A name is taken where it has a character that is no white space, and at most
/// 120 characters.
pub proof fn law_names_are_short_and_visible(name: Seq<char>)
    ensures
        super::model::valid_name(name) <==> name.len() <= 120 && exists|i: int|
            0 <= i < name.len() && !crate::text::is_space(#[trigger] name[i]),
{
}

/// A Space is created behind the others, with the name and the directory asked
/// for, and with one Tab of one Pane. The others stay.
pub proof fn law_spaces_are_created_last(model: ModelView, name: Seq<char>, directory: Seq<u8>)
    requires
        model.next_id + 4 <= u64::MAX,
    ensures
        ({
            let before = model.snapshot;
            let applied = model.applied(
                before.revision,
                CommandView::CreateSpace { name, directory },
            );
            &&& super::model::valid_name(name) && directory.len() > 0 <==> applied is Ok
            &&& !super::model::valid_name(name) ==> applied->Err_0 == CoreModelError::InvalidName
            &&& super::model::valid_name(name) && directory.len() == 0 ==> applied->Err_0
                == CoreModelError::InvalidDirectory
            &&& applied matches Ok((after, commit)) ==> {
                let spaces = after.snapshot.spaces;
                let made = spaces.last();
                &&& spaces.len() == before.spaces.len() + 1
                &&& forall|s: int|
                    0 <= s < before.spaces.len() ==> #[trigger] spaces[s] == before.spaces[s]
                &&& made.name == name && made.directory == directory && !made.name_is_custom
                &&& made.tabs.len() == 1 && made.tabs[0].name == "Terminal"@
                    && !made.tabs[0].name_is_custom
                &&& made.tabs[0].layout.panes().len() == 1
                &&& commit.created == (CreatedResource::Space {
                    space_id: made.id,
                    tab_id: made.tabs[0].id,
                    pane_id: made.tabs[0].layout.panes()[0].id,
                    terminal_session_id: made.tabs[0].layout.panes()[0].terminal_session_id,
                })
            }
        }),
{
    let applied = model.applied(
        model.snapshot.revision,
        CommandView::CreateSpace { name, directory },
    );
    if let Ok((after, commit)) = applied {
        let layout = after.snapshot.spaces.last().tabs[0].layout;
        if let PaneLayout::Pane(pane) = layout {
            assert(layout.panes() =~= seq![pane]);
        }
    }
}

/// A Tab is created behind the others of its Space, with the name asked for and
/// one Pane. Nothing else changes.
pub proof fn law_tabs_are_created_last(model: ModelView, space: int, name: Seq<char>)
    requires
        model.well_formed(),
        model.next_id + 3 <= u64::MAX,
        0 <= space < model.snapshot.spaces.len(),
    ensures
        ({
            let before = model.snapshot.spaces;
            let applied = model.applied(
                model.snapshot.revision,
                CommandView::CreateTab { space_id: before[space].id, name },
            );
            &&& super::model::valid_name(name) <==> applied is Ok
            &&& applied is Err ==> applied->Err_0 == CoreModelError::InvalidName
            &&& applied matches Ok((after, commit)) ==> {
                let spaces = after.snapshot.spaces;
                let made = spaces[space].tabs.last();
                &&& spaces.len() == before.len()
                &&& forall|s: int|
                    0 <= s < before.len() && s != space ==> #[trigger] spaces[s] == before[s]
                &&& spaces[space].id == before[space].id
                &&& spaces[space].name == before[space].name
                &&& spaces[space].name_is_custom == before[space].name_is_custom
                &&& spaces[space].directory == before[space].directory
                &&& spaces[space].tabs.drop_last() == before[space].tabs
                &&& spaces[space].tabs.len() == before[space].tabs.len() + 1
                &&& made.name == name && !made.name_is_custom
                &&& made.layout.panes().len() == 1
                &&& commit.created == (CreatedResource::Tab {
                    tab_id: made.id,
                    pane_id: made.layout.panes()[0].id,
                    terminal_session_id: made.layout.panes()[0].terminal_session_id,
                })
            }
        }),
{
    let before = model.snapshot.spaces;
    lemma_space_found(model, space);
    let applied = model.applied(
        model.snapshot.revision,
        CommandView::CreateTab { space_id: before[space].id, name },
    );
    if let Ok((after, commit)) = applied {
        let tabs = after.snapshot.spaces[space].tabs;
        assert(tabs.drop_last() =~= before[space].tabs);
        if let PaneLayout::Pane(pane) = tabs.last().layout {
            assert(tabs.last().layout.panes() =~= seq![pane]);
        }
    }
}

/// Renaming gives a Space or a Tab the name asked for, and marks it as one that
/// was chosen. Nothing else changes, and no session starts or stops.
pub proof fn law_renaming_changes_names_alone(
    model: ModelView,
    space: int,
    tab: int,
    name: Seq<char>,
)
    requires
        model.well_formed(),
        0 <= space < model.snapshot.spaces.len(),
        0 <= tab < model.snapshot.spaces[space].tabs.len(),
    ensures
        ({
            let before = model.snapshot.spaces;
            let named = model.applied(
                model.snapshot.revision,
                CommandView::RenameSpace { space_id: before[space].id, name },
            );
            &&& super::model::valid_name(name) <==> named is Ok
            &&& named is Err ==> named->Err_0 == CoreModelError::InvalidName
            &&& named matches Ok((after, commit)) ==> {
                let spaces = after.snapshot.spaces;
                &&& spaces.len() == before.len()
                &&& forall|s: int|
                    0 <= s < before.len() && s != space ==> #[trigger] spaces[s] == before[s]
                &&& spaces[space].name == name && spaces[space].name_is_custom
                &&& spaces[space].id == before[space].id
                &&& spaces[space].directory == before[space].directory
                &&& spaces[space].tabs == before[space].tabs
                &&& after.snapshot.sessions == model.snapshot.sessions
                &&& commit.effects.len() == 0
            }
        }),
        ({
            let before = model.snapshot.spaces;
            let named = model.applied(
                model.snapshot.revision,
                CommandView::RenameTab { tab_id: before[space].tabs[tab].id, name },
            );
            &&& super::model::valid_name(name) <==> named is Ok
            &&& named is Err ==> named->Err_0 == CoreModelError::InvalidName
            &&& named matches Ok((after, commit)) ==> {
                let spaces = after.snapshot.spaces;
                let made = spaces[space].tabs[tab];
                let was = before[space].tabs[tab];
                &&& spaces.len() == before.len()
                &&& forall|s: int|
                    0 <= s < before.len() && s != space ==> #[trigger] spaces[s] == before[s]
                &&& spaces[space].id == before[space].id
                &&& spaces[space].name == before[space].name
                &&& spaces[space].name_is_custom == before[space].name_is_custom
                &&& spaces[space].directory == before[space].directory
                &&& spaces[space].tabs.len() == before[space].tabs.len()
                &&& forall|t: int|
                    0 <= t < before[space].tabs.len() && t != tab ==> #[trigger]
                    spaces[space].tabs[t] == before[space].tabs[t]
                &&& made.name == name && made.name_is_custom
                &&& made.id == was.id && made.layout == was.layout
                &&& after.snapshot.sessions == model.snapshot.sessions
                &&& commit.effects.len() == 0
            }
        }),
{
    let spaces = model.snapshot.spaces;
    lemma_space_found(model, space);
    lemma_found(spaces, TabQuery::Named(spaces[space].tabs[tab].id), space, tab);
}

/// Reordering puts a Tab at the place asked for among the Tabs of its Space, and
/// leaves the order of the others. Where there is no such place it says so.
pub proof fn law_reordering_moves_one_tab(model: ModelView, space: int, tab: int, index: usize)
    requires
        model.well_formed(),
        0 <= space < model.snapshot.spaces.len(),
        0 <= tab < model.snapshot.spaces[space].tabs.len(),
        model.snapshot.spaces[space].tabs.len() <= usize::MAX,
    ensures
        ({
            let before = model.snapshot.spaces;
            let tabs = before[space].tabs;
            let moved = model.applied(
                model.snapshot.revision,
                CommandView::ReorderTab { tab_id: tabs[tab].id, index },
            );
            &&& index < tabs.len() <==> moved is Ok
            &&& moved is Err ==> moved->Err_0 == (CoreModelError::TabIndexOutOfBounds {
                index,
                tab_count: tabs.len() as usize,
            })
            &&& moved matches Ok((after, commit)) ==> {
                let spaces = after.snapshot.spaces;
                &&& spaces.len() == before.len()
                &&& forall|s: int|
                    0 <= s < before.len() && s != space ==> #[trigger] spaces[s] == before[s]
                &&& spaces[space].id == before[space].id
                &&& spaces[space].name == before[space].name
                &&& spaces[space].name_is_custom == before[space].name_is_custom
                &&& spaces[space].directory == before[space].directory
                &&& spaces[space].tabs[index as int] == tabs[tab]
                &&& spaces[space].tabs.len() == tabs.len()
                &&& spaces[space].tabs.remove(index as int) == tabs.remove(tab)
                &&& after.snapshot.sessions == model.snapshot.sessions
                &&& commit.effects.len() == 0
            }
        }),
{
    let spaces = model.snapshot.spaces;
    let tabs = spaces[space].tabs;
    lemma_found(spaces, TabQuery::Named(tabs[tab].id), space, tab);
    if index < tabs.len() {
        let after = tabs.remove(tab).insert(index as int, tabs[tab]);
        assert(after.remove(index as int) =~= tabs.remove(tab));
    }
}

proof fn lemma_resized(layout: PaneLayout, split_id: SplitId, ratio: SplitRatio)
    requires
        forall|id: u64| #[trigger] uses_of(id).layout(layout) <= 1,
        split_of(layout, split_id) is Some,
    ensures
        layout.holds_split(split_id),
        layout.resized(split_id, ratio).panes() == layout.panes(),
        forall|id: SplitId|
            {
                let was = split_of(layout, id);
                let is = #[trigger] split_of(layout.resized(split_id, ratio), id);
                &&& was is Some <==> is is Some
                &&& was is Some ==> is->0.axis == was->0.axis
                &&& was is Some ==> is->0.ratio == if id == split_id {
                    ratio
                } else {
                    was->0.ratio
                }
            },
    decreases layout,
{
    if let PaneLayout::Split(split) = layout {
        let after = layout.resized(split_id, ratio);
        assert forall|id: u64| #[trigger] uses_of(id).layout(*split.first) <= 1 by {
            assert(uses_of(id).layout(layout) <= 1);
        }
        assert forall|id: u64| #[trigger] uses_of(id).layout(*split.second) <= 1 by {
            assert(uses_of(id).layout(layout) <= 1);
        }
        if split.id == split_id {
        } else if split_of(*split.first, split_id) is Some {
            lemma_resized(*split.first, split_id, ratio);
        } else {
            lemma_not_held(*split.first, split_id);
            lemma_resized(*split.second, split_id, ratio);
        }
        assert(after.panes() =~= layout.panes());
        assert forall|id: SplitId|
            {
                let was = split_of(layout, id);
                let is = #[trigger] split_of(after, id);
                &&& was is Some <==> is is Some
                &&& was is Some ==> is->0.axis == was->0.axis
                &&& was is Some ==> is->0.ratio == if id == split_id {
                    ratio
                } else {
                    was->0.ratio
                }
            } by {
            assert(after is Split);
            let first = *after->Split_0.first;
            let second = *after->Split_0.second;
            assert(split_of(first, id) is Some || split_of(first, id) is None);
            assert(split_of(second, id) is Some || split_of(second, id) is None);
            if split.id == split_id && id == split_id {
            } else if id == split_id {
                lemma_not_held(*split.first, id);
            }
        }
    }
}

proof fn lemma_not_held(layout: PaneLayout, split_id: SplitId)
    ensures
        layout.holds_split(split_id) <==> split_of(layout, split_id) is Some,
    decreases layout,
{
    if let PaneLayout::Split(split) = layout {
        lemma_not_held(*split.first, split_id);
        lemma_not_held(*split.second, split_id);
    }
}

proof fn lemma_distinct_in_layout(spaces: Seq<SpaceView>, space: int, tab: int)
    requires
        distinct_ids(spaces),
        0 <= space < spaces.len(),
        0 <= tab < spaces[space].tabs.len(),
    ensures
        forall|id: u64| #[trigger] uses_of(id).layout(spaces[space].tabs[tab].layout) <= 1,
{
    assert forall|id: u64| #[trigger]
        uses_of(id).layout(spaces[space].tabs[tab].layout) <= 1 by {
        assert(uses_of(id).spaces(spaces) <= 1);
        lemma_total_member(spaces[space].tabs, tab, uses_of(id).of_tab());
        lemma_total_member(spaces, space, uses_of(id).of_space());
    }
}

/// Resizing gives a split the ratio asked for. Every other split keeps its own,
/// all keep their axes, and the Panes stay where they are.
pub proof fn law_resizing_changes_one_ratio(
    model: ModelView,
    space: int,
    tab: int,
    split_id: SplitId,
    ratio: SplitRatio,
)
    requires
        model.well_formed(),
        0 <= space < model.snapshot.spaces.len(),
        0 <= tab < model.snapshot.spaces[space].tabs.len(),
        split_of(model.snapshot.spaces[space].tabs[tab].layout, split_id) is Some,
    ensures
        ({
            let before = model.snapshot.spaces;
            let layout = before[space].tabs[tab].layout;
            let resized = model.applied(
                model.snapshot.revision,
                CommandView::ResizeSplit { split_id, ratio },
            );
            &&& resized is Ok
            &&& ({
                let (after, commit) = resized->Ok_0;
                let shown = after.snapshot.spaces[space].tabs[tab].layout;
                &&& only_layout_differs(before, after.snapshot.spaces, space, tab)
                &&& shown.panes() == layout.panes()
                &&& forall|id: SplitId|
                    {
                        let was = split_of(layout, id);
                        let is = #[trigger] split_of(shown, id);
                        &&& was is Some <==> is is Some
                        &&& was is Some ==> is->0.axis == was->0.axis
                        &&& was is Some ==> is->0.ratio == if id == split_id {
                            ratio
                        } else {
                            was->0.ratio
                        }
                    }
                &&& after.snapshot.sessions == model.snapshot.sessions
                &&& commit.effects.len() == 0
            })
        }),
{
    let spaces = model.snapshot.spaces;
    lemma_distinct_in_layout(spaces, space, tab);
    lemma_resized(spaces[space].tabs[tab].layout, split_id, ratio);
    lemma_found(spaces, TabQuery::WithSplit(split_id), space, tab);
}

/// A layout without one of its Panes: the others keep their order, and every split
/// that is left its axis and its ratio.
proof fn lemma_without(layout: PaneLayout, place: int)
    requires
        0 <= place < layout.panes().len(),
        forall|id: u64| #[trigger] uses_of(id).layout(layout) <= 1,
    ensures
        ({
            let left = layout.without(layout.panes()[place].id);
            &&& left is None <==> layout.panes().len() == 1
            &&& left is Some ==> left->0.panes() == layout.panes().remove(place)
            &&& left is Some ==> forall|id: SplitId|
                (#[trigger] split_of(left->0, id)) is Some ==> {
                    &&& split_of(layout, id) is Some
                    &&& split_of(layout, id)->0.axis == split_of(left->0, id)->0.axis
                    &&& split_of(layout, id)->0.ratio == split_of(left->0, id)->0.ratio
                }
        }),
    decreases layout,
{
    let pane = layout.panes()[place];
    let left = layout.without(pane.id);
    match layout {
        PaneLayout::Pane(only) => {
            assert(layout.panes() =~= seq![only]);
        },
        PaneLayout::Split(split) => {
            let count = split.first.panes().len() as int;
            lemma_has_panes(*split.first);
            lemma_has_panes(*split.second);
            assert forall|id: u64| #[trigger] uses_of(id).layout(*split.first) <= 1 by {
                assert(uses_of(id).layout(layout) <= 1);
            }
            assert forall|id: u64| #[trigger] uses_of(id).layout(*split.second) <= 1 by {
                assert(uses_of(id).layout(layout) <= 1);
            }
            if place < count {
                assert(pane == split.first.panes()[place]);
                lemma_pane_is_counted(*split.first, place);
                lemma_without(*split.first, place);
            } else {
                assert(pane == split.second.panes()[place - count]);
                lemma_pane_is_counted(*split.second, place - count);
                assert(uses_of(pane.id.0).layout(layout) <= 1);
                if split.first.holds_pane(pane.id) {
                    if uses_of(pane.id.0).layout(*split.first) == 0 {
                        lemma_unused_in_layout(*split.first, pane.id.0);
                    }
                }
                lemma_without(*split.second, place - count);
            }
            assert(left->0.panes() =~= layout.panes().remove(place));
            assert forall|id: SplitId| (#[trigger] split_of(left->0, id)) is Some implies {
                &&& split_of(layout, id) is Some
                &&& split_of(layout, id)->0.axis == split_of(left->0, id)->0.axis
                &&& split_of(layout, id)->0.ratio == split_of(left->0, id)->0.ratio
            } by {
                assert(uses_of(id.0).layout(layout) <= 1);
                lemma_split_counted(*split.first, id);
                lemma_split_counted(*split.second, id);
                if left->0 is Split {
                    assert(split_of(*left->0->Split_0.first, id) is Some || split_of(
                        *left->0->Split_0.first,
                        id,
                    ) is None);
                    assert(split_of(*left->0->Split_0.second, id) is Some || split_of(
                        *left->0->Split_0.second,
                        id,
                    ) is None);
                }
            }
        },
    }
}

proof fn lemma_has_panes(layout: PaneLayout)
    ensures
        layout.panes().len() > 0,
    decreases layout,
{
    if let PaneLayout::Split(split) = layout {
        lemma_has_panes(*split.first);
    }
}

proof fn lemma_split_counted(layout: PaneLayout, split_id: SplitId)
    ensures
        split_of(layout, split_id) is Some ==> uses_of(split_id.0).layout(layout) >= 1,
{
    lemma_not_held(layout, split_id);
    if split_of(layout, split_id) is Some {
        lemma_split_is_counted(layout, split_id);
    }
}

/// Closing a Pane that is there succeeds and stops its session alone. The other
/// Panes of its Tab keep their order, and the splits that are left their axes and
/// ratios; a Tab without Panes is gone, and a Space without Tabs. Nothing else
/// changes.
pub proof fn law_closing_a_pane_closes_it_alone(
    model: ModelView,
    space: int,
    tab: int,
    place: int,
)
    requires
        model.well_formed(),
        0 <= space < model.snapshot.spaces.len(),
        0 <= tab < model.snapshot.spaces[space].tabs.len(),
        0 <= place < model.snapshot.spaces[space].tabs[tab].layout.panes().len(),
    ensures
        ({
            let before = model.snapshot.spaces;
            let layout = before[space].tabs[tab].layout;
            let pane = layout.panes()[place];
            let closed = model.applied(
                model.snapshot.revision,
                CommandView::ClosePane { pane_id: pane.id },
            );
            &&& closed is Ok
            &&& ({
                let (after, commit) = closed->Ok_0;
                let spaces = after.snapshot.spaces;
                let shown = spaces[space].tabs[tab].layout;
                &&& commit.effects == seq![
                    EffectView::StopTerminal { terminal_session_id: pane.terminal_session_id },
                ]
                &&& after.snapshot.sessions == model.snapshot.sessions.filter(
                    |session: SessionView| session.id != pane.terminal_session_id,
                )
                &&& layout.panes().len() > 1 ==> {
                    &&& only_layout_differs(before, spaces, space, tab)
                    &&& shown.panes() == layout.panes().remove(place)
                    &&& forall|id: SplitId|
                        (#[trigger] split_of(shown, id)) is Some ==> {
                            &&& split_of(layout, id) is Some
                            &&& split_of(layout, id)->0.axis == split_of(shown, id)->0.axis
                            &&& split_of(layout, id)->0.ratio == split_of(shown, id)->0.ratio
                        }
                }
                &&& layout.panes().len() == 1 ==> tab_is_gone(before, spaces, space, tab)
            })
        }),
{
    let spaces = model.snapshot.spaces;
    let layout = spaces[space].tabs[tab].layout;
    let pane = layout.panes()[place];
    lemma_pane_place(spaces, space, tab, place);
    lemma_distinct_in_layout(spaces, space, tab);
    lemma_without(layout, place);
    lemma_only_pane(layout, place);
    let (after, commit) = model.applied(
        model.snapshot.revision,
        CommandView::ClosePane { pane_id: pane.id },
    )->Ok_0;
    let stopped = seq![pane.terminal_session_id];
    assert(stopped[0] == pane.terminal_session_id);
    assert(after.snapshot.sessions == super::hierarchy::going_on(
        model.snapshot.sessions,
        stopped,
    ));
    lemma_same_filter(model.snapshot.sessions, stopped, pane.terminal_session_id);
    assert(commit.effects =~= seq![
        EffectView::StopTerminal { terminal_session_id: pane.terminal_session_id },
    ]);
}

proof fn lemma_same_filter(
    sessions: Seq<SessionView>,
    stopped: Seq<TerminalSessionId>,
    id: TerminalSessionId,
)
    requires
        stopped == seq![id],
    ensures
        super::hierarchy::going_on(sessions, stopped) == sessions.filter(
            |session: SessionView| session.id != id,
        ),
    decreases sessions.len(),
{
    reveal(Seq::filter);
    assert(stopped[0] == id);
    if sessions.len() > 0 {
        lemma_same_filter(sessions.drop_last(), stopped, id);
    }
}

/// The Pane at a place is the one that is found by its identity.
proof fn lemma_only_pane(layout: PaneLayout, place: int)
    requires
        0 <= place < layout.panes().len(),
        uses_of(layout.panes()[place].id.0).layout(layout) <= 1,
    ensures
        layout.find_pane(layout.panes()[place].id) == Some(layout.panes()[place]),
    decreases layout,
{
    let pane = layout.panes()[place];
    match layout {
        PaneLayout::Pane(_) => {},
        PaneLayout::Split(split) => {
            let count = split.first.panes().len() as int;
            if place < count {
                assert(pane == split.first.panes()[place]);
                lemma_only_pane(*split.first, place);
            } else {
                assert(pane == split.second.panes()[place - count]);
                lemma_pane_is_counted(*split.second, place - count);
                if split.first.holds_pane(pane.id) {
                    if uses_of(pane.id.0).layout(*split.first) == 0 {
                        lemma_unused_in_layout(*split.first, pane.id.0);
                    }
                }
                lemma_only_pane(*split.second, place - count);
            }
        },
    }
}

/// Whether `after` is `before` without one Tab, and without its Space where that
/// was its only one.
pub open spec fn tab_is_gone(
    before: Seq<SpaceView>,
    after: Seq<SpaceView>,
    space: int,
    tab: int,
) -> bool {
    if before[space].tabs.len() == 1 {
        &&& after.len() == before.len() - 1
        &&& forall|s: int| 0 <= s < space ==> #[trigger] after[s] == before[s]
        &&& forall|s: int| space <= s < after.len() ==> #[trigger] after[s] == before[s + 1]
    } else {
        &&& after.len() == before.len()
        &&& forall|s: int| 0 <= s < before.len() && s != space ==> #[trigger] after[s] == before[s]
        &&& after[space].id == before[space].id
        &&& after[space].name == before[space].name
        &&& after[space].name_is_custom == before[space].name_is_custom
        &&& after[space].directory == before[space].directory
        &&& after[space].tabs.len() == before[space].tabs.len() - 1
        &&& forall|t: int|
            0 <= t < tab ==> #[trigger] after[space].tabs[t] == before[space].tabs[t]
        &&& forall|t: int|
            tab <= t < after[space].tabs.len() ==> #[trigger] after[space].tabs[t]
                == before[space].tabs[t + 1]
    }
}

/// Closing a Tab that is there succeeds and stops the sessions of its Panes, in
/// their order, and no others. The Tab is gone, and its Space where that was its
/// only Tab; all others stay in their order.
pub proof fn law_closing_a_tab_closes_it_alone(model: ModelView, space: int, tab: int)
    requires
        model.well_formed(),
        0 <= space < model.snapshot.spaces.len(),
        0 <= tab < model.snapshot.spaces[space].tabs.len(),
    ensures
        ({
            let before = model.snapshot.spaces;
            let panes = before[space].tabs[tab].layout.panes();
            let closed = model.applied(
                model.snapshot.revision,
                CommandView::CloseTab { tab_id: before[space].tabs[tab].id },
            );
            &&& closed is Ok
            &&& ({
                let (after, commit) = closed->Ok_0;
                &&& tab_is_gone(before, after.snapshot.spaces, space, tab)
                &&& commit.effects.len() == panes.len()
                &&& forall|i: int|
                    0 <= i < panes.len() ==> #[trigger] commit.effects[i]
                        == (EffectView::StopTerminal {
                        terminal_session_id: panes[i].terminal_session_id,
                    })
            })
        }),
{
    let spaces = model.snapshot.spaces;
    lemma_found(spaces, TabQuery::Named(spaces[space].tabs[tab].id), space, tab);
}

/// Closing a Space that is there succeeds. It is gone, all others stay in their
/// order, and the sessions of its Panes stop and no others.
pub proof fn law_closing_a_space_closes_it_alone(model: ModelView, space: int)
    requires
        model.well_formed(),
        0 <= space < model.snapshot.spaces.len(),
    ensures
        ({
            let before = model.snapshot.spaces;
            let closed = model.applied(
                model.snapshot.revision,
                CommandView::CloseSpace { space_id: before[space].id },
            );
            &&& closed is Ok
            &&& ({
                let (after, commit) = closed->Ok_0;
                let spaces = after.snapshot.spaces;
                &&& spaces.len() == before.len() - 1
                &&& forall|s: int| 0 <= s < space ==> #[trigger] spaces[s] == before[s]
                &&& forall|s: int|
                    space <= s < spaces.len() ==> #[trigger] spaces[s] == before[s + 1]
                &&& forall|session: TerminalSessionId|
                    (exists|e: int|
                        0 <= e < commit.effects.len() && #[trigger] commit.effects[e]
                            == (EffectView::StopTerminal { terminal_session_id: session }))
                        <==> #[trigger] shown_in(before[space], session)
            })
        }),
{
    let before = model.snapshot.spaces;
    lemma_space_found(model, space);
    let (after, commit) = model.applied(
        model.snapshot.revision,
        CommandView::CloseSpace { space_id: before[space].id },
    )->Ok_0;
    let stopped = super::model::tab_session_ids(before[space].tabs);
    assert(commit.effects == super::model::stop_effects(stopped));
    assert forall|session: TerminalSessionId|
        (exists|e: int|
            0 <= e < commit.effects.len() && #[trigger] commit.effects[e]
                == (EffectView::StopTerminal { terminal_session_id: session }))
            <==> #[trigger] shown_in(before[space], session) by {
        lemma_tab_session_ids(before[space].tabs, session);
        if stopped.contains(session) {
            let e = stopped.index_of(session);
            assert(commit.effects[e] == (EffectView::StopTerminal {
                terminal_session_id: session,
            }));
        }
        if exists|e: int|
            0 <= e < commit.effects.len() && #[trigger] commit.effects[e]
                == (EffectView::StopTerminal { terminal_session_id: session }) {
            let e = choose|e: int|
                0 <= e < commit.effects.len() && #[trigger] commit.effects[e]
                    == (EffectView::StopTerminal { terminal_session_id: session });
            assert(stopped[e] == session);
        }
    }
}

/// Whether a Pane of a Space shows a session.
pub open spec fn shown_in(space: SpaceView, session: TerminalSessionId) -> bool {
    exists|t: int, k: int|
        #![trigger space.tabs[t].layout.panes()[k]]
        0 <= t < space.tabs.len() && 0 <= k < space.tabs[t].layout.panes().len()
            && space.tabs[t].layout.panes()[k].terminal_session_id == session
}

proof fn lemma_tab_session_ids(tabs: Seq<TabView>, session: TerminalSessionId)
    ensures
        super::model::tab_session_ids(tabs).contains(session) <==> exists|t: int, k: int|
            #![trigger tabs[t].layout.panes()[k]]
            0 <= t < tabs.len() && 0 <= k < tabs[t].layout.panes().len()
                && tabs[t].layout.panes()[k].terminal_session_id == session,
    decreases tabs.len(),
{
    let all = super::model::tab_session_ids(tabs);
    if tabs.len() > 0 {
        let rest = tabs.drop_last();
        let earlier = super::model::tab_session_ids(rest);
        let last = tabs.last().layout;
        lemma_tab_session_ids(rest, session);
        if all.contains(session) {
            let i = all.index_of(session);
            if i < earlier.len() {
                assert(earlier[i] == session);
                let (t, k) = choose|t: int, k: int|
                    #![trigger rest[t].layout.panes()[k]]
                    0 <= t < rest.len() && 0 <= k < rest[t].layout.panes().len()
                        && rest[t].layout.panes()[k].terminal_session_id == session;
                assert(tabs[t].layout.panes()[k].terminal_session_id == session);
            } else {
                let k = i - earlier.len();
                assert(last.session_ids()[k] == session);
                assert(tabs[tabs.len() - 1].layout.panes()[k].terminal_session_id == session);
            }
        }
        if exists|t: int, k: int|
            #![trigger tabs[t].layout.panes()[k]]
            0 <= t < tabs.len() && 0 <= k < tabs[t].layout.panes().len()
                && tabs[t].layout.panes()[k].terminal_session_id == session {
            let (t, k) = choose|t: int, k: int|
                #![trigger tabs[t].layout.panes()[k]]
                0 <= t < tabs.len() && 0 <= k < tabs[t].layout.panes().len()
                    && tabs[t].layout.panes()[k].terminal_session_id == session;
            if t < rest.len() {
                assert(rest[t].layout.panes()[k].terminal_session_id == session);
                let i = earlier.index_of(session);
                assert(all[i] == session);
            } else {
                assert(last.session_ids()[k] == session);
                assert(all[earlier.len() + k] == session);
            }
        }
    }
}

/// Moving a Pane to another puts it directly before or after that one, as asked,
/// both under a new split of the axis and the ratio asked for; and where it is
/// then closed, the Spaces are as if it had been closed where it was. No session
/// starts or stops.
pub proof fn law_moving_takes_a_pane_to_its_target(
    model: ModelView,
    from: (int, int, int),
    to: (int, int, int),
    axis: SplitAxis,
    placement: SplitPlacement,
    ratio: SplitRatio,
)
    requires
        model.well_formed(),
        model.next_id + 1 <= u64::MAX,
        0 <= from.0 < model.snapshot.spaces.len(),
        0 <= from.1 < model.snapshot.spaces[from.0].tabs.len(),
        0 <= from.2 < model.snapshot.spaces[from.0].tabs[from.1].layout.panes().len(),
        0 <= to.0 < model.snapshot.spaces.len(),
        0 <= to.1 < model.snapshot.spaces[to.0].tabs.len(),
        0 <= to.2 < model.snapshot.spaces[to.0].tabs[to.1].layout.panes().len(),
        from != to,
    ensures
        ({
            let before = model.snapshot.spaces;
            let pane = before[from.0].tabs[from.1].layout.panes()[from.2];
            let target = before[to.0].tabs[to.1].layout.panes()[to.2];
            let moved = model.applied(
                model.snapshot.revision,
                CommandView::MovePane {
                    pane_id: pane.id,
                    target_pane_id: target.id,
                    axis,
                    placement,
                    ratio,
                },
            );
            let closed_before = model.applied(
                model.snapshot.revision,
                CommandView::ClosePane { pane_id: pane.id },
            );
            &&& moved is Ok
            &&& ({
                let (after, commit) = moved->Ok_0;
                let spaces = after.snapshot.spaces;
                let closed_after = after.applied(
                    after.snapshot.revision,
                    CommandView::ClosePane { pane_id: pane.id },
                );
                &&& after.snapshot.sessions == model.snapshot.sessions
                &&& commit.effects.len() == 0
                &&& exists|s: int, t: int|
                    #![trigger spaces[s].tabs[t]]
                    0 <= s < spaces.len() && 0 <= t < spaces[s].tabs.len() && ({
                        let split = split_of(spaces[s].tabs[t].layout, SplitId(model.next_id));
                        &&& split is Some && split->0.axis == axis && split->0.ratio == ratio
                        &&& placement == SplitPlacement::Before ==> *split->0.first
                            == PaneLayout::Pane(pane) && *split->0.second == PaneLayout::Pane(
                            target,
                        )
                        &&& placement == SplitPlacement::After ==> *split->0.first
                            == PaneLayout::Pane(target) && *split->0.second == PaneLayout::Pane(
                            pane,
                        )
                    })
                &&& closed_after is Ok && closed_before is Ok
                &&& closed_after->Ok_0.0.snapshot.spaces == closed_before->Ok_0.0.snapshot.spaces
            })
        }),
{
    let before = model.snapshot.spaces;
    let pane = before[from.0].tabs[from.1].layout.panes()[from.2];
    let target = before[to.0].tabs[to.1].layout.panes()[to.2];
    let command = CommandView::MovePane {
        pane_id: pane.id,
        target_pane_id: target.id,
        axis,
        placement,
        ratio,
    };
    lemma_pane_place(before, from.0, from.1, from.2);
    lemma_pane_place(before, to.0, to.1, to.2);
    lemma_distinct_panes(before, from, to);
    lemma_only_pane(before[from.0].tabs[from.1].layout, from.2);
    lemma_only_pane(before[to.0].tabs[to.1].layout, to.2);
    assert(model.pane(pane.id) == pane);
    let lifted = model.lifted(pane.id);
    super::laws::lemma_lifting_keeps_other_panes(model, pane.id, target.id);
    lemma_located(TabQuery::WithPane(target.id), lifted);
    let (space, tab) = TabQuery::WithPane(target.id).locate(lifted)->0;
    let layout = lifted[space].tabs[tab].layout;
    assert forall|id: u64| #[trigger] uses_of(id).spaces(lifted) <= 1 by {
        super::laws::lemma_weight_lifted(uses_of(id), model, pane.id);
        assert(uses_of(id).spaces(before) <= 1);
    }
    lemma_distinct_in_layout(lifted, space, tab);
    lemma_lifted_target(model, pane.id, target.id, target);
    lemma_find_pane_in_panes(layout, target.id);
    let place = choose|i: int|
        0 <= i < layout.panes().len() && (#[trigger] layout.panes()[i]).id == target.id;
    lemma_only_pane(layout, place);
    assert(layout.panes()[place] == target);
    assert(uses_of(model.next_id).spaces(lifted) == 0) by {
        super::laws::lemma_weight_lifted(uses_of(model.next_id), model, pane.id);
        assert(uses_of(model.next_id).spaces(before) > 0 ==> 0 < model.next_id < model.next_id);
    }
    lemma_total_member(lifted, space, uses_of(model.next_id).of_space());
    lemma_total_member(lifted[space].tabs, tab, uses_of(model.next_id).of_tab());
    lemma_divided(layout, place, SplitId(model.id(0)), axis, ratio, placement, pane);
    assert(uses_of(pane.id.0).spaces(lifted) == 0) by {
        super::laws::lemma_weight_lifted(uses_of(pane.id.0), model, pane.id);
        assert(uses_of(pane.id.0).spaces(before) <= 1);
    }
    lemma_total_member(lifted, space, uses_of(pane.id.0).of_space());
    lemma_total_member(lifted[space].tabs, tab, uses_of(pane.id.0).of_tab());
    lemma_unused_in_layout(layout, pane.id.0);
    lemma_divided_without(layout, target.id, SplitId(model.id(0)), axis, ratio, placement, pane);
    let (after, commit) = model.applied(model.snapshot.revision, command)->Ok_0;
    let spaces = after.snapshot.spaces;
    law_well_formed_kept(model, model.snapshot.revision, command);
    assert(spaces[space].tabs[tab].layout == layout.divided(
        target.id,
        SplitId(model.id(0)),
        axis,
        ratio,
        placement,
        pane,
    ));
    lemma_found(spaces, TabQuery::WithPane(pane.id), space, tab);
    let restored = super::hierarchy::with_layout(spaces, space, tab, layout);
    assert(restored[space].tabs =~= lifted[space].tabs);
    assert(restored =~= lifted);
}

/// Panes at different places have different identities.
proof fn lemma_distinct_panes(
    spaces: Seq<SpaceView>,
    left: (int, int, int),
    right: (int, int, int),
)
    requires
        distinct_ids(spaces),
        0 <= left.0 < spaces.len(),
        0 <= left.1 < spaces[left.0].tabs.len(),
        0 <= left.2 < spaces[left.0].tabs[left.1].layout.panes().len(),
        0 <= right.0 < spaces.len(),
        0 <= right.1 < spaces[right.0].tabs.len(),
        0 <= right.2 < spaces[right.0].tabs[right.1].layout.panes().len(),
        left != right,
    ensures
        spaces[left.0].tabs[left.1].layout.panes()[left.2].id
            != spaces[right.0].tabs[right.1].layout.panes()[right.2].id,
{
    let one = spaces[left.0].tabs[left.1].layout;
    let other = spaces[right.0].tabs[right.1].layout;
    let id = one.panes()[left.2].id;
    if other.panes()[right.2].id == id {
        lemma_pane_is_counted(one, left.2);
        lemma_pane_is_counted(other, right.2);
        assert(uses_of(id.0).spaces(spaces) <= 1);
        lemma_one_tab(uses_of(id.0), spaces, left.0, left.1, right.0, right.1);
        lemma_distinct_in_layout(spaces, left.0, left.1);
        lemma_same_place(one, left.2, right.2);
    }
}

proof fn lemma_same_place(layout: PaneLayout, left: int, right: int)
    requires
        0 <= left < layout.panes().len(),
        0 <= right < layout.panes().len(),
        layout.panes()[left].id == layout.panes()[right].id,
        uses_of(layout.panes()[left].id.0).layout(layout) <= 1,
    ensures
        left == right,
    decreases layout,
{
    if let PaneLayout::Split(split) = layout {
        let count = split.first.panes().len() as int;
        if left < count {
            lemma_pane_is_counted(*split.first, left);
        } else {
            lemma_pane_is_counted(*split.second, left - count);
        }
        if right < count {
            lemma_pane_is_counted(*split.first, right);
        } else {
            lemma_pane_is_counted(*split.second, right - count);
        }
        if left < count && right < count {
            lemma_same_place(*split.first, left, right);
        } else if left >= count && right >= count {
            lemma_same_place(*split.second, left - count, right - count);
        }
    }
}

/// A Pane that stays shows after another has left its place what it showed
/// before.
proof fn lemma_lifted_target(
    model: ModelView,
    pane_id: PaneId,
    target_id: PaneId,
    target: PaneSnapshot,
)
    requires
        pane_id != target_id,
        distinct_ids(model.lifted(pane_id)),
        TabQuery::WithPane(pane_id).locate(model.snapshot.spaces) is Some,
        TabQuery::WithPane(target_id).locate(model.snapshot.spaces) is Some,
        model.pane(target_id) == target,
    ensures
        ({
            let lifted = model.lifted(pane_id);
            let (space, tab) = TabQuery::WithPane(target_id).locate(lifted)->0;
            lifted[space].tabs[tab].layout.find_pane(target_id) == Some(target)
        }),
{
    let spaces = model.snapshot.spaces;
    let lifted = model.lifted(pane_id);
    let query = TabQuery::WithPane(target_id);
    lemma_located(TabQuery::WithPane(pane_id), spaces);
    lemma_located(query, spaces);
    let (space, tab) = TabQuery::WithPane(pane_id).locate(spaces)->0;
    let (s, t) = query.locate(spaces)->0;
    let layout = spaces[space].tabs[tab].layout;
    super::laws::lemma_without_keeps_others(layout, pane_id, target_id);
    match layout.without(pane_id) {
        Some(_) => {
            lemma_found(lifted, query, s, t);
        },
        None => {
            let tabs = spaces[space].tabs.remove(tab);
            let kept_space = if tabs.len() == 0 && space < s {
                s - 1
            } else {
                s
            };
            let kept_tab = if s == space && tab < t {
                t - 1
            } else {
                t
            };
            assert(lifted[kept_space].tabs[kept_tab] == spaces[s].tabs[t]);
            lemma_found(lifted, query, kept_space, kept_tab);
        },
    }
}

/// Whether no Space has an identity.
pub open spec fn lacks_space(spaces: Seq<SpaceView>, id: SpaceId) -> bool {
    forall|s: int| 0 <= s < spaces.len() ==> (#[trigger] spaces[s]).id != id
}

/// Whether no Tab has an identity.
pub open spec fn lacks_tab(spaces: Seq<SpaceView>, id: TabId) -> bool {
    forall|s: int, t: int|
        #![trigger spaces[s].tabs[t]]
        0 <= s < spaces.len() && 0 <= t < spaces[s].tabs.len() ==> spaces[s].tabs[t].id != id
}

/// Whether no Pane has an identity.
pub open spec fn lacks_pane(spaces: Seq<SpaceView>, id: PaneId) -> bool {
    forall|s: int, t: int, k: int|
        #![trigger spaces[s].tabs[t].layout.panes()[k]]
        0 <= s < spaces.len() && 0 <= t < spaces[s].tabs.len() && 0 <= k
            < spaces[s].tabs[t].layout.panes().len() ==> spaces[s].tabs[t].layout.panes()[k].id
            != id
}

/// Whether no split has an identity.
pub open spec fn lacks_split(spaces: Seq<SpaceView>, id: SplitId) -> bool {
    forall|s: int, t: int|
        #![trigger spaces[s].tabs[t]]
        0 <= s < spaces.len() && 0 <= t < spaces[s].tabs.len() ==> split_of(
            spaces[s].tabs[t].layout,
            id,
        ) is None
}

/// A command on something that is not there is rejected, and says what is
/// missing.
pub proof fn law_missing_resources_are_named(
    model: ModelView,
    space_id: SpaceId,
    tab_id: TabId,
    pane_id: PaneId,
    split_id: SplitId,
    other: PaneId,
    name: Seq<char>,
    index: usize,
    axis: SplitAxis,
    placement: SplitPlacement,
    ratio: SplitRatio,
)
    ensures
        ({
            let spaces = model.snapshot.spaces;
            let missing = |kind: ResourceKind, id: u64| CoreModelError::NotFound { kind, id };
            let says = |command: CommandView, error: CoreModelError|
                model.applied(model.snapshot.revision, command) is Err && model.applied(
                    model.snapshot.revision,
                    command,
                )->Err_0 == error;
            &&& lacks_space(spaces, space_id) ==> {
                let error = missing(ResourceKind::Space, space_id.0);
                &&& says(CommandView::CloseSpace { space_id }, error)
                &&& super::model::valid_name(name) ==> says(
                    CommandView::RenameSpace { space_id, name },
                    error,
                )
                &&& super::model::valid_name(name) ==> says(
                    CommandView::CreateTab { space_id, name },
                    error,
                )
            }
            &&& lacks_tab(spaces, tab_id) ==> {
                let error = missing(ResourceKind::Tab, tab_id.0);
                &&& says(CommandView::CloseTab { tab_id }, error)
                &&& says(CommandView::ReorderTab { tab_id, index }, error)
                &&& super::model::valid_name(name) ==> says(
                    CommandView::RenameTab { tab_id, name },
                    error,
                )
            }
            &&& lacks_pane(spaces, pane_id) ==> {
                let error = missing(ResourceKind::Pane, pane_id.0);
                &&& says(CommandView::ClosePane { pane_id }, error)
                &&& says(CommandView::SplitPane { pane_id, axis, placement, ratio }, error)
                &&& other != pane_id ==> says(
                    CommandView::MovePane {
                        pane_id,
                        target_pane_id: other,
                        axis,
                        placement,
                        ratio,
                    },
                    error,
                )
                &&& other != pane_id && !lacks_pane(spaces, other) ==> says(
                    CommandView::MovePane {
                        pane_id: other,
                        target_pane_id: pane_id,
                        axis,
                        placement,
                        ratio,
                    },
                    error,
                )
            }
            &&& lacks_split(spaces, split_id) ==> says(
                CommandView::ResizeSplit { split_id, ratio },
                missing(ResourceKind::Split, split_id.0),
            )
            &&& says(
                CommandView::MovePane {
                    pane_id,
                    target_pane_id: pane_id,
                    axis,
                    placement,
                    ratio,
                },
                CoreModelError::CannotMovePaneOntoItself,
            )
        }),
{
    let spaces = model.snapshot.spaces;
    if lacks_space(spaces, space_id) {
        lemma_first_index_none(spaces, space_named(space_id));
    }
    lemma_located(TabQuery::Named(tab_id), spaces);
    lemma_located(TabQuery::WithPane(pane_id), spaces);
    lemma_located(TabQuery::WithSplit(split_id), spaces);
    if let Some((s, t)) = TabQuery::Named(tab_id).locate(spaces) {
        assert(spaces[s].tabs[t].id == tab_id);
    }
    if let Some((s, t)) = TabQuery::WithPane(pane_id).locate(spaces) {
        lemma_find_pane_in_panes(spaces[s].tabs[t].layout, pane_id);
        let k = choose|k: int|
            0 <= k < spaces[s].tabs[t].layout.panes().len()
                && (#[trigger] spaces[s].tabs[t].layout.panes()[k]).id == pane_id;
        assert(spaces[s].tabs[t].layout.panes()[k].id == pane_id);
    }
    if let Some((s, t)) = TabQuery::WithSplit(split_id).locate(spaces) {
        lemma_not_held(spaces[s].tabs[t].layout, split_id);
        assert(spaces[s].tabs[t] == spaces[s].tabs[t]);
    }
    if !lacks_pane(spaces, other) {
        let (s, t, k) = choose|s: int, t: int, k: int|
            #![trigger spaces[s].tabs[t].layout.panes()[k]]
            0 <= s < spaces.len() && 0 <= t < spaces[s].tabs.len() && 0 <= k
                < spaces[s].tabs[t].layout.panes().len()
                && spaces[s].tabs[t].layout.panes()[k].id == other;
        lemma_pane_is_counted(spaces[s].tabs[t].layout, k);
        super::laws::lemma_locate_exists(TabQuery::WithPane(other), spaces, s, t);
    }
}

/// A command that expects another revision is rejected, and says both; no other
/// is rejected for that.
pub proof fn law_stale_commands_are_rejected(
    model: ModelView,
    expected_revision: u64,
    command: CommandView,
)
    ensures
        ({
            let applied = model.applied(expected_revision, command);
            let stale = CoreModelError::StaleRevision {
                expected: expected_revision,
                actual: model.snapshot.revision,
            };
            &&& expected_revision != model.snapshot.revision ==> applied is Err && applied->Err_0
                == stale
            &&& expected_revision == model.snapshot.revision && applied is Err ==> applied->Err_0
                != stale
        }),
{
}

} // verus!
