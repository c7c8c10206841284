//! Finding and editing Tabs within the Spaces that hold them.

use super::layout::{find_split_ratio, layout_contains_pane};
use super::{
    CoreModelError, PaneId, PaneLayout, ResourceKind, SessionView, SpaceId, SpaceSnapshot,
    SpaceView, SplitId, TabId, TabSnapshot, TabView, TerminalSessionId, TerminalSessionSnapshot,
};
use crate::sequences::{
    first_index, is_first_index, lemma_first_index_none, lemma_first_index_some, lemma_views_remove,
    lemma_views_update, views,
};
use vstd::prelude::*;

verus! {

/// What a Tab is looked up by.
#[derive(Clone, Copy)]
pub enum TabQuery {
    Named(TabId),
    WithPane(PaneId),
    WithSplit(SplitId),
}

impl TabQuery {
    pub open spec fn matches(self, tab: TabView) -> bool {
        match self {
            TabQuery::Named(tab_id) => tab.id == tab_id,
            TabQuery::WithPane(pane_id) => tab.layout.holds_pane(pane_id),
            TabQuery::WithSplit(split_id) => tab.layout.holds_split(split_id),
        }
    }

    pub open spec fn predicate(self) -> spec_fn(TabView) -> bool {
        |tab: TabView| self.matches(tab)
    }

    /// The Spaces with a matching Tab.
    pub open spec fn space_predicate(self) -> spec_fn(SpaceView) -> bool {
        |space: SpaceView| first_index(space.tabs, self.predicate()) is Some
    }

    /// The place of the first matching Tab: its Space and its index there.
    pub open spec fn locate(self, spaces: Seq<SpaceView>) -> Option<(int, int)> {
        match first_index(spaces, self.space_predicate()) {
            None => None,
            Some(space) => Some((space, first_index(spaces[space].tabs, self.predicate())->0)),
        }
    }

    /// The resource that is missing where no Tab matches.
    pub open spec fn spec_missing(self) -> CoreModelError {
        match self {
            TabQuery::Named(tab_id) => CoreModelError::NotFound {
                kind: ResourceKind::Tab,
                id: tab_id.0,
            },
            TabQuery::WithPane(pane_id) => CoreModelError::NotFound {
                kind: ResourceKind::Pane,
                id: pane_id.0,
            },
            TabQuery::WithSplit(split_id) => CoreModelError::NotFound {
                kind: ResourceKind::Split,
                id: split_id.0,
            },
        }
    }

    pub fn missing(self) -> (error: CoreModelError)
        ensures
            error == self.spec_missing(),
    {
        match self {
            TabQuery::Named(tab_id) => not_found(ResourceKind::Tab, tab_id.as_u64()),
            TabQuery::WithPane(pane_id) => not_found(ResourceKind::Pane, pane_id.as_u64()),
            TabQuery::WithSplit(split_id) => not_found(ResourceKind::Split, split_id.as_u64()),
        }
    }

    pub fn accepts(self, tab: &TabSnapshot) -> (accepted: bool)
        ensures
            accepted == self.matches(tab@),
    {
        match self {
            TabQuery::Named(tab_id) => tab.id == tab_id,
            TabQuery::WithPane(pane_id) => layout_contains_pane(&tab.layout, pane_id),
            TabQuery::WithSplit(split_id) => find_split_ratio(&tab.layout, split_id).is_some(),
        }
    }

    /// Where the first matching Tab stands among `tabs`.
    pub fn position(self, tabs: &Vec<TabSnapshot>) -> (found: Option<usize>)
        ensures
            match found {
                Some(index) => first_index(views(tabs@), self.predicate()) == Some(index as int)
                    && is_first_index(views(tabs@), self.predicate(), index as int),
                None => first_index(views(tabs@), self.predicate()) is None,
            },
    {
        let mut index: usize = 0;
        while index < tabs.len()
            invariant
                index <= tabs@.len(),
                forall|i: int| 0 <= i < index ==> !self.matches(#[trigger] views(tabs@)[i]),
            decreases tabs@.len() - index,
        {
            if self.accepts(&tabs[index]) {
                proof {
                    assert(views(tabs@)[index as int] == tabs@[index as int]@);
                    lemma_first_index_some(views(tabs@), self.predicate(), index as int);
                }
                return Some(index);
            }
            index += 1;
        }
        proof {
            lemma_first_index_none(views(tabs@), self.predicate());
        }
        None
    }

    /// Where the first matching Tab stands among the Tabs of all `spaces`.
    pub fn find(self, spaces: &Vec<SpaceSnapshot>) -> (found: Result<(usize, usize), CoreModelError>)
        ensures
            match found {
                Ok((space, tab)) => {
                    &&& self.locate(views(spaces@)) == Some((space as int, tab as int))
                    &&& space < spaces@.len()
                    &&& tab < spaces@[space as int].tabs@.len()
                    &&& self.matches(spaces@[space as int].tabs@[tab as int]@)
                },
                Err(error) => self.locate(views(spaces@)) is None && error == self.spec_missing(),
            },
    {
        let mut space: usize = 0;
        while space < spaces.len()
            invariant
                space <= spaces@.len(),
                forall|i: int|
                    0 <= i < space ==> !self.space_predicate()(#[trigger] views(spaces@)[i]),
            decreases spaces@.len() - space,
        {
            let candidate = &spaces[space];
            if let Some(tab) = self.position(&candidate.tabs) {
                proof {
                    assert(views(spaces@)[space as int] == spaces@[space as int]@);
                    assert(views(candidate.tabs@)[tab as int] == candidate.tabs@[tab as int]@);
                    lemma_first_index_some(views(spaces@), self.space_predicate(), space as int);
                }
                return Ok((space, tab));
            }
            proof {
                assert(views(spaces@)[space as int] == spaces@[space as int]@);
            }
            space += 1;
        }
        proof {
            lemma_first_index_none(views(spaces@), self.space_predicate());
        }
        Err(self.missing())
    }
}

pub fn not_found(kind: ResourceKind, id: u64) -> (error: CoreModelError)
    ensures
        error == (CoreModelError::NotFound { kind, id }),
{
    CoreModelError::NotFound { kind, id }
}

/// The Spaces named `space_id`.
pub open spec fn space_named(space_id: SpaceId) -> spec_fn(SpaceView) -> bool {
    |space: SpaceView| space.id == space_id
}

/// Where the Space `space_id` stands among `spaces`.
pub fn find_space(spaces: &Vec<SpaceSnapshot>, space_id: SpaceId) -> (found: Result<
    usize,
    CoreModelError,
>)
    ensures
        match found {
            Ok(index) => {
                &&& first_index(views(spaces@), space_named(space_id)) == Some(index as int)
                &&& index < spaces@.len()
                &&& spaces@[index as int].id == space_id
            },
            Err(error) => {
                &&& first_index(views(spaces@), space_named(space_id)) is None
                &&& error == (CoreModelError::NotFound {
                    kind: ResourceKind::Space,
                    id: space_id.0,
                })
            },
        },
{
    let mut index: usize = 0;
    while index < spaces.len()
        invariant
            index <= spaces@.len(),
            forall|i: int|
                0 <= i < index ==> !space_named(space_id)(#[trigger] views(spaces@)[i]),
        decreases spaces@.len() - index,
    {
        proof {
            assert(views(spaces@)[index as int] == spaces@[index as int]@);
        }
        if spaces[index].id == space_id {
            proof {
                lemma_first_index_some(views(spaces@), space_named(space_id), index as int);
            }
            return Ok(index);
        }
        index += 1;
    }
    proof {
        lemma_first_index_none(views(spaces@), space_named(space_id));
    }
    Err(not_found(ResourceKind::Space, space_id.as_u64()))
}

/// `spaces` with one Tab replaced.
pub open spec fn with_tab(spaces: Seq<SpaceView>, space: int, tab: int, new: TabView) -> Seq<
    SpaceView,
> {
    spaces.update(
        space,
        SpaceView { tabs: spaces[space].tabs.update(tab, new), ..spaces[space] },
    )
}

/// `spaces` with the layout of one Tab replaced.
pub open spec fn with_layout(
    spaces: Seq<SpaceView>,
    space: int,
    tab: int,
    layout: PaneLayout,
) -> Seq<SpaceView> {
    with_tab(spaces, space, tab, TabView { layout, ..spaces[space].tabs[tab] })
}

/// `spaces` with one Tab removed, and its Space too where no Tab is left in it.
pub open spec fn without_tab(spaces: Seq<SpaceView>, space: int, tab: int) -> Seq<SpaceView> {
    let tabs = spaces[space].tabs.remove(tab);
    if tabs.len() == 0 {
        spaces.remove(space)
    } else {
        spaces.update(space, SpaceView { tabs, ..spaces[space] })
    }
}

/// `spaces` with the Pane `pane_id` taken out of one Tab, and the Tab removed
/// where it held no other Pane.
pub open spec fn without_pane(spaces: Seq<SpaceView>, space: int, tab: int, pane_id: PaneId) -> Seq<
    SpaceView,
> {
    match spaces[space].tabs[tab].layout.without(pane_id) {
        None => without_tab(spaces, space, tab),
        Some(layout) => with_layout(spaces, space, tab, layout),
    }
}

/// The sessions that go on where those named in `stopped` end.
pub open spec fn going_on(sessions: Seq<SessionView>, stopped: Seq<TerminalSessionId>) -> Seq<
    SessionView,
> {
    sessions.filter(|session: SessionView| !stopped.contains(session.id))
}

/// Gives one Tab the layout `layout`.
pub fn set_layout(spaces: &mut Vec<SpaceSnapshot>, space: usize, tab: usize, layout: PaneLayout)
    requires
        space < old(spaces)@.len(),
        tab < old(spaces)@[space as int].tabs@.len(),
    ensures
        views(final(spaces)@) == with_layout(
            views(old(spaces)@),
            space as int,
            tab as int,
            layout,
        ),
{
    spaces[space].tabs[tab].layout = layout;
    proof {
        let before = old(spaces)@[space as int];
        let after = spaces@[space as int];
        lemma_views_update(before.tabs@, tab as int, after.tabs@[tab as int]);
        assert(after.tabs@ =~= before.tabs@.update(tab as int, after.tabs@[tab as int]));
        lemma_views_update(old(spaces)@, space as int, after);
        assert(spaces@ =~= old(spaces)@.update(space as int, after));
        assert(views(spaces@) =~= with_layout(
            views(old(spaces)@),
            space as int,
            tab as int,
            layout,
        ));
    }
}

/// Removes one Tab, and its Space where it was the last Tab there.
pub fn remove_tab_and_empty_space(
    spaces: &mut Vec<SpaceSnapshot>,
    space: usize,
    tab: usize,
) -> (removed: TabSnapshot)
    requires
        space < old(spaces)@.len(),
        tab < old(spaces)@[space as int].tabs@.len(),
    ensures
        removed@ == old(spaces)@[space as int].tabs@[tab as int]@,
        views(final(spaces)@) == without_tab(views(old(spaces)@), space as int, tab as int),
{
    let removed = spaces[space].tabs.remove(tab);
    let ghost trimmed = spaces@;
    proof {
        let before = old(spaces)@[space as int];
        lemma_views_remove(before.tabs@, tab as int);
        lemma_views_update(old(spaces)@, space as int, trimmed[space as int]);
        assert(trimmed =~= old(spaces)@.update(space as int, trimmed[space as int]));
    }
    if spaces[space].tabs.len() == 0 {
        spaces.remove(space);
        proof {
            lemma_views_remove(trimmed, space as int);
            assert(trimmed.remove(space as int) =~= old(spaces)@.remove(space as int));
            lemma_views_remove(old(spaces)@, space as int);
        }
    }
    removed
}

/// Keeps the sessions that are not named in `stopped`.
pub fn retain_sessions(
    sessions: &mut Vec<TerminalSessionSnapshot>,
    stopped: &Vec<TerminalSessionId>,
)
    ensures
        views(final(sessions)@) == going_on(views(old(sessions)@), stopped@),
{
    let mut kept: Vec<TerminalSessionSnapshot> = Vec::new();
    let mut index: usize = 0;
    let ghost all = views(sessions@);
    let ghost goes_on = |session: SessionView| !stopped@.contains(session.id);
    while index < sessions.len()
        invariant
            index <= sessions@.len(),
            all == views(sessions@),
            goes_on == (|session: SessionView| !stopped@.contains(session.id)),
            views(kept@) == all.take(index as int).filter(goes_on),
        decreases sessions@.len() - index,
    {
        let ghost before = kept@;
        proof {
            reveal(Seq::filter);
            assert(all.take(index + 1).drop_last() =~= all.take(index as int));
            assert(all.take(index + 1).last() == sessions@[index as int]@);
        }
        if !contains_session(stopped, sessions[index].id) {
            kept.push(sessions[index].clone());
            proof {
                assert(views(kept@) =~= views(before).push(sessions@[index as int]@));
            }
        }
        index += 1;
    }
    proof {
        assert(all.take(all.len() as int) =~= all);
    }
    *sessions = kept;
}

pub fn contains_session(ids: &Vec<TerminalSessionId>, id: TerminalSessionId) -> (found: bool)
    ensures
        found == ids@.contains(id),
{
    let mut index: usize = 0;
    while index < ids.len()
        invariant
            index <= ids@.len(),
            forall|i: int| 0 <= i < index ==> ids@[i] != id,
        decreases ids@.len() - index,
    {
        if ids[index] == id {
            return true;
        }
        index += 1;
    }
    false
}

} // verus!
