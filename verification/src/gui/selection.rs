//! What of the hierarchy a window shows.

use crate::core_model::hierarchy::{find_space, space_named, TabQuery};
use crate::core_model::layout::{find_pane, layout_contains_pane};
use crate::core_model::{
    CoreSnapshot, CreatedResource, HierarchyView, PaneId, PaneLayout, SpaceId, SpaceView, TabId,
    TabView, TerminalSessionId,
};
use crate::sequences::{first_index, lemma_first_index_some, views};
use vstd::prelude::*;

verus! {

/// The Space, the Tab and the Pane that a window shows.
#[derive(Clone, Copy, Debug, PartialEq, Eq, Structural)]
pub struct UiSelection {
    pub space_id: Option<SpaceId>,
    pub tab_id: Option<TabId>,
    pub pane_id: Option<PaneId>,
}

/// Nothing is selected.
pub open spec fn no_selection() -> UiSelection {
    UiSelection { space_id: None, tab_id: None, pane_id: None }
}

impl Default for UiSelection {
    fn default() -> (selection: Self)
        ensures
            selection == no_selection(),
    {
        UiSelection { space_id: None, tab_id: None, pane_id: None }
    }
}

/// The place that was found, or else the first there is.
pub open spec fn found_or_first(found: Option<int>, count: nat) -> Option<int> {
    if found is Some {
        found
    } else if count > 0 {
        Some(0)
    } else {
        None
    }
}

/// Where the Space that a selection shows stands.
pub open spec fn shown_space(space_id: Option<SpaceId>, spaces: Seq<SpaceView>) -> Option<int> {
    let found = match space_id {
        Some(space_id) => first_index(spaces, space_named(space_id)),
        None => None,
    };
    found_or_first(found, spaces.len())
}

/// Where the Tab that a selection shows stands in its Space.
pub open spec fn shown_tab(tab_id: Option<TabId>, tabs: Seq<TabView>) -> Option<int> {
    let found = match tab_id {
        Some(tab_id) => first_index(tabs, TabQuery::Named(tab_id).predicate()),
        None => None,
    };
    found_or_first(found, tabs.len())
}

/// The Pane that a selection shows in a Tab.
pub open spec fn shown_pane(pane_id: Option<PaneId>, layout: PaneLayout) -> PaneId {
    match pane_id {
        Some(pane_id) if layout.holds_pane(pane_id) => pane_id,
        _ => layout.panes()[0].id,
    }
}

impl UiSelection {
    /// The selection with what `spaces` do not hold replaced by the first that
    /// they hold.
    pub open spec fn settled(self, spaces: Seq<SpaceView>) -> UiSelection {
        match shown_space(self.space_id, spaces) {
            None => no_selection(),
            Some(space) => match shown_tab(self.tab_id, spaces[space].tabs) {
                None => UiSelection {
                    space_id: Some(spaces[space].id),
                    tab_id: None,
                    pane_id: None,
                },
                Some(tab) => UiSelection {
                    space_id: Some(spaces[space].id),
                    tab_id: Some(spaces[space].tabs[tab].id),
                    pane_id: Some(shown_pane(self.pane_id, spaces[space].tabs[tab].layout)),
                },
            },
        }
    }

    pub fn initial(hierarchy: &CoreSnapshot) -> (selection: Self)
        ensures
            selection == no_selection().settled(hierarchy@.spaces),
    {
        UiSelection::default().normalized(hierarchy)
    }

    pub fn normalized(self, hierarchy: &CoreSnapshot) -> (selection: Self)
        ensures
            selection == self.settled(hierarchy@.spaces),
    {
        let ghost spaces = hierarchy@.spaces;
        let found = match self.space_id {
            Some(space_id) => match find_space(&hierarchy.spaces, space_id) {
                Ok(space) => Some(space),
                Err(_) => None,
            },
            None => None,
        };
        let space: usize = match found {
            Some(space) => space,
            None => {
                if hierarchy.spaces.len() == 0 {
                    return UiSelection::default();
                }
                0
            },
        };
        let tabs = &hierarchy.spaces[space].tabs;
        proof {
            assert(spaces[space as int] == hierarchy.spaces@[space as int]@);
            assert(spaces[space as int].tabs == views(tabs@));
        }
        let found_tab = match self.tab_id {
            Some(tab_id) => TabQuery::Named(tab_id).position(tabs),
            None => None,
        };
        let tab: usize = match found_tab {
            Some(tab) => tab,
            None => {
                if tabs.len() == 0 {
                    return UiSelection {
                        space_id: Some(hierarchy.spaces[space].id),
                        tab_id: None,
                        pane_id: None,
                    };
                }
                0
            },
        };
        proof {
            assert(views(tabs@)[tab as int] == tabs@[tab as int]@);
            lemma_has_panes(tabs@[tab as int].layout);
        }
        let layout = &tabs[tab].layout;
        let pane_id = match self.pane_id {
            Some(pane_id) => if layout_contains_pane(layout, pane_id) {
                Some(pane_id)
            } else {
                first_pane_id(layout)
            },
            None => first_pane_id(layout),
        };
        UiSelection {
            space_id: Some(hierarchy.spaces[space].id),
            tab_id: Some(tabs[tab].id),
            pane_id,
        }
    }
}

pub proof fn lemma_has_panes(layout: PaneLayout)
    ensures
        layout.panes().len() > 0,
        layout.holds_pane(layout.panes()[0].id),
    decreases layout,
{
    match layout {
        PaneLayout::Pane(pane) => {
            assert(layout.panes()[0] == pane);
        },
        PaneLayout::Split(split) => {
            lemma_has_panes(*split.first);
            assert(layout.panes()[0] == split.first.panes()[0]);
        },
    }
}

/// A settled selection shows what is there: a Space of the hierarchy, a Tab of
/// that Space and a Pane of that Tab; and it stays as it is where nothing
/// changes.
pub proof fn law_settled_selections_stay(selection: UiSelection, spaces: Seq<SpaceView>)
    ensures
        selection.settled(spaces).settled(spaces) == selection.settled(spaces),
        match selection.settled(spaces).space_id {
            None => spaces.len() == 0,
            Some(space_id) => first_index(spaces, space_named(space_id)) is Some,
        },
        match selected_place(selection.settled(spaces), spaces) {
            None => selection.settled(spaces).tab_id is None && selection.settled(
                spaces,
            ).pane_id is None,
            Some((space, tab)) => match selection.settled(spaces).pane_id {
                None => false,
                Some(pane_id) => spaces[space].tabs[tab].layout.holds_pane(pane_id),
            },
        },
{
    let settled = selection.settled(spaces);
    match shown_space(selection.space_id, spaces) {
        None => {},
        Some(space) => {
            let named = space_named(spaces[space].id);
            assert(crate::sequences::is_first_index(spaces, named, space));
            lemma_first_index_some(spaces, named, space);
            let tabs = spaces[space].tabs;
            match shown_tab(selection.tab_id, tabs) {
                None => {},
                Some(tab) => {
                    let query = TabQuery::Named(tabs[tab].id).predicate();
                    assert(crate::sequences::is_first_index(tabs, query, tab));
                    lemma_first_index_some(tabs, query, tab);
                    lemma_has_panes(tabs[tab].layout);
                },
            }
        },
    }
}

/// The first Pane of a layout.
pub fn first_pane_id(layout: &PaneLayout) -> (pane_id: Option<PaneId>)
    ensures
        pane_id == Some(layout.panes()[0].id),
    decreases layout,
{
    match layout {
        PaneLayout::Pane(pane) => Some(pane.id),
        PaneLayout::Split(split) => {
            proof {
                lemma_has_panes(*split.first);
                assert(layout.panes()[0] == split.first.panes()[0]);
            }
            match first_pane_id(&split.first) {
                Some(pane_id) => Some(pane_id),
                None => first_pane_id(&split.second),
            }
        },
    }
}

/// The terminal that a Pane shows.
pub fn terminal_for_pane(layout: &PaneLayout, pane_id: PaneId) -> (terminal: Option<
    TerminalSessionId,
>)
    ensures
        terminal == match layout.find_pane(pane_id) {
            Some(pane) => Some(pane.terminal_session_id),
            None => None,
        },
{
    match find_pane(layout, pane_id) {
        Some(pane) => Some(pane.terminal_session_id),
        None => None,
    }
}

/// The selection of a place among the Tabs, or of none.
pub open spec fn place_selection(
    place: Option<(int, int)>,
    spaces: Seq<SpaceView>,
    pane_id: Option<PaneId>,
) -> UiSelection {
    match place {
        Some((space, tab)) => UiSelection {
            space_id: Some(spaces[space].id),
            tab_id: Some(spaces[space].tabs[tab].id),
            pane_id,
        },
        None => UiSelection { space_id: None, tab_id: None, pane_id },
    }
}

/// The selection that a command leaves, by what it brought into being.
pub open spec fn created_selection(
    current: UiSelection,
    created: CreatedResource,
    spaces: Seq<SpaceView>,
) -> UiSelection {
    let selected = match created {
        CreatedResource::Nothing => current,
        CreatedResource::Space { space_id, tab_id, pane_id, .. } => UiSelection {
            space_id: Some(space_id),
            tab_id: Some(tab_id),
            pane_id: Some(pane_id),
        },
        CreatedResource::Tab { tab_id, pane_id, .. } => UiSelection {
            space_id: match TabQuery::Named(tab_id).locate(spaces) {
                Some((space, _)) => Some(spaces[space].id),
                None => None,
            },
            tab_id: Some(tab_id),
            pane_id: Some(pane_id),
        },
        CreatedResource::Pane { pane_id, .. } => place_selection(
            TabQuery::WithPane(pane_id).locate(spaces),
            spaces,
            Some(pane_id),
        ),
    };
    selected.settled(spaces)
}

pub fn selection_for_created(
    current: UiSelection,
    created: &CreatedResource,
    hierarchy: &CoreSnapshot,
) -> (selection: UiSelection)
    ensures
        selection == created_selection(current, *created, hierarchy@.spaces),
{
    let ghost spaces = hierarchy@.spaces;
    let selected = match created {
        CreatedResource::Nothing => current,
        CreatedResource::Space { space_id, tab_id, pane_id, .. } => UiSelection {
            space_id: Some(*space_id),
            tab_id: Some(*tab_id),
            pane_id: Some(*pane_id),
        },
        CreatedResource::Tab { tab_id, pane_id, .. } => {
            let space_id = match TabQuery::Named(*tab_id).find(&hierarchy.spaces) {
                Ok((space, _)) => {
                    proof {
                        assert(spaces[space as int] == hierarchy.spaces@[space as int]@);
                    }
                    Some(hierarchy.spaces[space].id)
                },
                Err(_) => None,
            };
            UiSelection { space_id, tab_id: Some(*tab_id), pane_id: Some(*pane_id) }
        },
        CreatedResource::Pane { pane_id, .. } => match TabQuery::WithPane(*pane_id).find(
            &hierarchy.spaces,
        ) {
            Ok((space, tab)) => {
                proof {
                    assert(spaces[space as int] == hierarchy.spaces@[space as int]@);
                    assert(views(hierarchy.spaces@[space as int].tabs@)[tab as int]
                        == hierarchy.spaces@[space as int].tabs@[tab as int]@);
                }
                UiSelection {
                    space_id: Some(hierarchy.spaces[space].id),
                    tab_id: Some(hierarchy.spaces[space].tabs[tab].id),
                    pane_id: Some(*pane_id),
                }
            },
            Err(_) => UiSelection { space_id: None, tab_id: None, pane_id: Some(*pane_id) },
        },
    };
    selected.normalized(hierarchy)
}

/// The selection that shows a Pane, or what stands in its place.
pub open spec fn pane_selection(pane_id: PaneId, spaces: Seq<SpaceView>) -> UiSelection {
    let place = TabQuery::WithPane(pane_id).locate(spaces);
    place_selection(
        place,
        spaces,
        if place is Some {
            Some(pane_id)
        } else {
            None
        },
    ).settled(spaces)
}

pub fn selection_for_pane(pane_id: PaneId, hierarchy: &CoreSnapshot) -> (selection: UiSelection)
    ensures
        selection == pane_selection(pane_id, hierarchy@.spaces),
{
    let ghost spaces = hierarchy@.spaces;
    let selected = match TabQuery::WithPane(pane_id).find(&hierarchy.spaces) {
        Ok((space, tab)) => {
            proof {
                assert(spaces[space as int] == hierarchy.spaces@[space as int]@);
                assert(views(hierarchy.spaces@[space as int].tabs@)[tab as int]
                    == hierarchy.spaces@[space as int].tabs@[tab as int]@);
            }
            UiSelection {
                space_id: Some(hierarchy.spaces[space].id),
                tab_id: Some(hierarchy.spaces[space].tabs[tab].id),
                pane_id: Some(pane_id),
            }
        },
        Err(_) => UiSelection::default(),
    };
    selected.normalized(hierarchy)
}

/// Where the Space and the Tab of a selection stand, as far as they are there.
pub open spec fn selected_place(selection: UiSelection, spaces: Seq<SpaceView>) -> Option<
    (int, int),
> {
    match (selection.space_id, selection.tab_id) {
        (Some(space_id), Some(tab_id)) => match first_index(spaces, space_named(space_id)) {
            Some(space) => match first_index(
                spaces[space].tabs,
                TabQuery::Named(tab_id).predicate(),
            ) {
                Some(tab) => Some((space, tab)),
                None => None,
            },
            None => None,
        },
        _ => None,
    }
}

pub fn find_selected_tab(selection: UiSelection, hierarchy: &CoreSnapshot) -> (place: Option<
    (usize, usize),
>)
    ensures
        match place {
            Some((space, tab)) => {
                &&& selected_place(selection, hierarchy@.spaces) == Some((space as int, tab as int))
                &&& space < hierarchy.spaces@.len()
                &&& tab < hierarchy.spaces@[space as int].tabs@.len()
                &&& hierarchy@.spaces[space as int].tabs[tab as int]
                    == hierarchy.spaces@[space as int].tabs@[tab as int]@
            },
            None => selected_place(selection, hierarchy@.spaces) is None,
        },
{
    match (selection.space_id, selection.tab_id) {
        (Some(space_id), Some(tab_id)) => match find_space(&hierarchy.spaces, space_id) {
            Ok(space) => {
                let tabs = &hierarchy.spaces[space].tabs;
                proof {
                    assert(hierarchy@.spaces[space as int] == hierarchy.spaces@[space as int]@);
                    assert(hierarchy@.spaces[space as int].tabs == views(tabs@));
                }
                match TabQuery::Named(tab_id).position(tabs) {
                    Some(tab) => {
                        proof {
                            assert(views(tabs@)[tab as int] == tabs@[tab as int]@);
                        }
                        Some((space, tab))
                    },
                    None => None,
                }
            },
            Err(_) => None,
        },
        _ => None,
    }
}

/// The terminal of the Pane that a selection shows.
pub open spec fn focused_terminal(selection: UiSelection, hierarchy: HierarchyView) -> Option<
    TerminalSessionId,
> {
    match (selection.pane_id, selected_place(selection, hierarchy.spaces)) {
        (Some(pane_id), Some((space, tab))) => match hierarchy.spaces[space].tabs[tab].layout.find_pane(
            pane_id,
        ) {
            Some(pane) => Some(pane.terminal_session_id),
            None => None,
        },
        _ => None,
    }
}

pub fn focused_terminal_session_id(selection: UiSelection, hierarchy: &CoreSnapshot) -> (terminal:
    Option<TerminalSessionId>)
    ensures
        terminal == focused_terminal(selection, hierarchy@),
{
    match selection.pane_id {
        Some(pane_id) => match find_selected_tab(selection, hierarchy) {
            Some((space, tab)) => terminal_for_pane(
                &hierarchy.spaces[space].tabs[tab].layout,
                pane_id,
            ),
            None => None,
        },
        None => None,
    }
}

} // verus!
