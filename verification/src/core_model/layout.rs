//! The binary tree of splits that arranges the Panes of one Tab.

use super::{
    PaneId, PaneLayout, PaneSnapshot, SplitAxis, SplitId, SplitPlacement, SplitRatio,
    SplitSnapshot, TerminalSessionId,
};
use vstd::prelude::*;

verus! {

impl PaneLayout {
    /// The Panes from first to last.
    pub open spec fn panes(self) -> Seq<PaneSnapshot>
        decreases self,
    {
        match self {
            PaneLayout::Pane(pane) => seq![pane],
            PaneLayout::Split(split) => split.first.panes() + split.second.panes(),
        }
    }

    /// The terminal sessions of the Panes, from first to last.
    pub open spec fn session_ids(self) -> Seq<TerminalSessionId> {
        self.panes().map_values(|pane: PaneSnapshot| pane.terminal_session_id)
    }

    /// The first Pane named `pane_id`.
    pub open spec fn find_pane(self, pane_id: PaneId) -> Option<PaneSnapshot>
        decreases self,
    {
        match self {
            PaneLayout::Pane(pane) => if pane.id == pane_id {
                Some(pane)
            } else {
                None
            },
            PaneLayout::Split(split) => match split.first.find_pane(pane_id) {
                Some(pane) => Some(pane),
                None => split.second.find_pane(pane_id),
            },
        }
    }

    pub open spec fn holds_pane(self, pane_id: PaneId) -> bool {
        self.find_pane(pane_id) is Some
    }

    /// The layout with the Pane `pane_id` divided to make room for `new_pane`.
    pub open spec fn divided(
        self,
        pane_id: PaneId,
        split_id: SplitId,
        axis: SplitAxis,
        ratio: SplitRatio,
        placement: SplitPlacement,
        new_pane: PaneSnapshot,
    ) -> PaneLayout
        decreases self,
    {
        match self {
            PaneLayout::Pane(pane) => if pane.id == pane_id {
                let (first, second) = match placement {
                    SplitPlacement::Before => (new_pane, pane),
                    SplitPlacement::After => (pane, new_pane),
                };
                PaneLayout::Split(
                    SplitSnapshot {
                        id: split_id,
                        axis,
                        ratio,
                        first: Box::new(PaneLayout::Pane(first)),
                        second: Box::new(PaneLayout::Pane(second)),
                    },
                )
            } else {
                self
            },
            PaneLayout::Split(split) => if split.first.holds_pane(pane_id) {
                PaneLayout::Split(
                    SplitSnapshot {
                        first: Box::new(
                            split.first.divided(pane_id, split_id, axis, ratio, placement, new_pane),
                        ),
                        ..split
                    },
                )
            } else {
                PaneLayout::Split(
                    SplitSnapshot {
                        second: Box::new(
                            split.second.divided(
                                pane_id,
                                split_id,
                                axis,
                                ratio,
                                placement,
                                new_pane,
                            ),
                        ),
                        ..split
                    },
                )
            },
        }
    }

    /// What is left without the Pane `pane_id`: a split that loses one side
    /// gives way to the other, and a layout of that Pane alone to nothing.
    pub open spec fn without(self, pane_id: PaneId) -> Option<PaneLayout>
        decreases self,
    {
        match self {
            PaneLayout::Pane(pane) => if pane.id == pane_id {
                None
            } else {
                Some(self)
            },
            PaneLayout::Split(split) => if split.first.holds_pane(pane_id) {
                match split.first.without(pane_id) {
                    None => Some(*split.second),
                    Some(first) => Some(
                        PaneLayout::Split(SplitSnapshot { first: Box::new(first), ..split }),
                    ),
                }
            } else {
                match split.second.without(pane_id) {
                    None => Some(*split.first),
                    Some(second) => Some(
                        PaneLayout::Split(SplitSnapshot { second: Box::new(second), ..split }),
                    ),
                }
            },
        }
    }

    /// The ratio of the first split named `split_id`, outer splits before
    /// inner ones.
    pub open spec fn find_ratio(self, split_id: SplitId) -> Option<SplitRatio>
        decreases self,
    {
        match self {
            PaneLayout::Pane(_) => None,
            PaneLayout::Split(split) => if split.id == split_id {
                Some(split.ratio)
            } else {
                match split.first.find_ratio(split_id) {
                    Some(ratio) => Some(ratio),
                    None => split.second.find_ratio(split_id),
                }
            },
        }
    }

    pub open spec fn holds_split(self, split_id: SplitId) -> bool {
        self.find_ratio(split_id) is Some
    }

    /// The layout with the ratio of the split `split_id` replaced.
    pub open spec fn resized(self, split_id: SplitId, ratio: SplitRatio) -> PaneLayout
        decreases self,
    {
        match self {
            PaneLayout::Pane(_) => self,
            PaneLayout::Split(split) => if split.id == split_id {
                PaneLayout::Split(SplitSnapshot { ratio, ..split })
            } else if split.first.holds_split(split_id) {
                PaneLayout::Split(
                    SplitSnapshot {
                        first: Box::new(split.first.resized(split_id, ratio)),
                        ..split
                    },
                )
            } else {
                PaneLayout::Split(
                    SplitSnapshot {
                        second: Box::new(split.second.resized(split_id, ratio)),
                        ..split
                    },
                )
            },
        }
    }
}

/// The Pane that `find_pane` names is one of the Panes, and the first of its
/// name.
pub proof fn lemma_find_pane_in_panes(layout: PaneLayout, pane_id: PaneId)
    ensures
        layout.find_pane(pane_id) matches Some(pane) ==> pane.id == pane_id
            && layout.panes().contains(pane),
        layout.holds_pane(pane_id) <==> exists|i: int|
            0 <= i < layout.panes().len() && (#[trigger] layout.panes()[i]).id == pane_id,
    decreases layout,
{
    match layout {
        PaneLayout::Pane(pane) => {
            assert(layout.panes()[0] == pane);
        },
        PaneLayout::Split(split) => {
            lemma_find_pane_in_panes(*split.first, pane_id);
            lemma_find_pane_in_panes(*split.second, pane_id);
            let first = split.first.panes();
            let second = split.second.panes();
            let both = layout.panes();
            assert(both == first + second);
            if split.first.holds_pane(pane_id) {
                let i = choose|i: int|
                    0 <= i < first.len() && (#[trigger] first[i]).id == pane_id;
                assert(both[i].id == pane_id);
                let pane = split.first.find_pane(pane_id)->0;
                let k = choose|k: int| 0 <= k < first.len() && first[k] == pane;
                assert(both[k] == pane);
            } else if split.second.holds_pane(pane_id) {
                let i = choose|i: int|
                    0 <= i < second.len() && (#[trigger] second[i]).id == pane_id;
                assert(both[first.len() + i].id == pane_id);
                let pane = split.second.find_pane(pane_id)->0;
                let k = choose|k: int| 0 <= k < second.len() && second[k] == pane;
                assert(both[first.len() + k] == pane);
            } else {
                assert forall|i: int| 0 <= i < both.len() implies (#[trigger] both[i]).id
                    != pane_id by {
                    if i < first.len() {
                        assert(both[i] == first[i]);
                    } else {
                        assert(both[i] == second[i - first.len()]);
                    }
                }
            }
        },
    }
}

/// The Pane named `pane_id`, by a search from first to last.
pub fn find_pane(layout: &PaneLayout, pane_id: PaneId) -> (found: Option<PaneSnapshot>)
    ensures
        found == layout.find_pane(pane_id),
    decreases layout,
{
    match layout {
        PaneLayout::Pane(pane) => if pane.id == pane_id {
            Some(*pane)
        } else {
            None
        },
        PaneLayout::Split(split) => match find_pane(&split.first, pane_id) {
            Some(pane) => Some(pane),
            None => find_pane(&split.second, pane_id),
        },
    }
}

pub fn layout_contains_pane(layout: &PaneLayout, pane_id: PaneId) -> (found: bool)
    ensures
        found == layout.holds_pane(pane_id),
{
    find_pane(layout, pane_id).is_some()
}

/// Appends the terminal sessions of `layout` to `terminal_session_ids`.
pub fn collect_terminal_session_ids(
    layout: &PaneLayout,
    terminal_session_ids: &mut Vec<TerminalSessionId>,
)
    ensures
        final(terminal_session_ids)@ == old(terminal_session_ids)@ + layout.session_ids(),
    decreases layout,
{
    match layout {
        PaneLayout::Pane(pane) => {
            terminal_session_ids.push(pane.terminal_session_id);
            proof {
                assert(layout.session_ids() =~= seq![pane.terminal_session_id]);
                assert(terminal_session_ids@ =~= old(terminal_session_ids)@
                    + layout.session_ids());
            }
        },
        PaneLayout::Split(split) => {
            collect_terminal_session_ids(&split.first, terminal_session_ids);
            collect_terminal_session_ids(&split.second, terminal_session_ids);
            proof {
                assert(layout.session_ids() =~= split.first.session_ids()
                    + split.second.session_ids());
                assert(terminal_session_ids@ =~= old(terminal_session_ids)@
                    + layout.session_ids());
            }
        },
    }
}

/// Divides the Pane `pane_id`, where the layout holds it, and says whether it
/// does.
pub fn replace_pane_with_split(
    layout: &mut PaneLayout,
    pane_id: PaneId,
    split_id: SplitId,
    axis: SplitAxis,
    ratio: SplitRatio,
    placement: SplitPlacement,
    new_pane: PaneSnapshot,
) -> (replaced: bool)
    ensures
        replaced == old(layout).holds_pane(pane_id),
        replaced ==> *final(layout) == old(layout).divided(
            pane_id,
            split_id,
            axis,
            ratio,
            placement,
            new_pane,
        ),
        !replaced ==> *final(layout) == *old(layout),
    decreases *old(layout),
{
    match layout {
        PaneLayout::Pane(pane) => {
            if pane.id != pane_id {
                return false;
            }
            let existing = *pane;
            let (first, second) = match placement {
                SplitPlacement::Before => (new_pane, existing),
                SplitPlacement::After => (existing, new_pane),
            };
            *layout =
            PaneLayout::Split(
                SplitSnapshot {
                    id: split_id,
                    axis,
                    ratio,
                    first: Box::new(PaneLayout::Pane(first)),
                    second: Box::new(PaneLayout::Pane(second)),
                },
            );
            true
        },
        PaneLayout::Split(split) => {
            if replace_pane_with_split(
                &mut split.first,
                pane_id,
                split_id,
                axis,
                ratio,
                placement,
                new_pane,
            ) {
                true
            } else {
                replace_pane_with_split(
                    &mut split.second,
                    pane_id,
                    split_id,
                    axis,
                    ratio,
                    placement,
                    new_pane,
                )
            }
        },
    }
}

/// What came of looking for a Pane to take out of a layout.
pub enum RemovePane {
    NotFound(PaneLayout),
    Removed { remaining: Option<PaneLayout>, pane: PaneSnapshot },
}

/// Takes the Pane `pane_id` out of `layout`.
pub fn remove_pane(layout: PaneLayout, pane_id: PaneId) -> (outcome: RemovePane)
    ensures
        match layout.find_pane(pane_id) {
            None => outcome == RemovePane::NotFound(layout),
            Some(pane) => outcome == (RemovePane::Removed {
                remaining: layout.without(pane_id),
                pane,
            }),
        },
    decreases layout,
{
    match layout {
        PaneLayout::Pane(pane) => if pane.id == pane_id {
            RemovePane::Removed { remaining: None, pane }
        } else {
            RemovePane::NotFound(PaneLayout::Pane(pane))
        },
        PaneLayout::Split(split) => {
            let SplitSnapshot { id, axis, ratio, first, second } = split;
            match remove_pane(*first, pane_id) {
                RemovePane::Removed { remaining, pane } => {
                    let remaining = match remaining {
                        None => Some(*second),
                        Some(first) => Some(
                            PaneLayout::Split(
                                SplitSnapshot { id, axis, ratio, first: Box::new(first), second },
                            ),
                        ),
                    };
                    RemovePane::Removed { remaining, pane }
                },
                RemovePane::NotFound(first) => match remove_pane(*second, pane_id) {
                    RemovePane::Removed { remaining, pane } => {
                        let remaining = match remaining {
                            None => Some(first),
                            Some(second) => Some(
                                PaneLayout::Split(
                                    SplitSnapshot {
                                        id,
                                        axis,
                                        ratio,
                                        first: Box::new(first),
                                        second: Box::new(second),
                                    },
                                ),
                            ),
                        };
                        RemovePane::Removed { remaining, pane }
                    },
                    RemovePane::NotFound(second) => RemovePane::NotFound(
                        PaneLayout::Split(
                            SplitSnapshot {
                                id,
                                axis,
                                ratio,
                                first: Box::new(first),
                                second: Box::new(second),
                            },
                        ),
                    ),
                },
            }
        },
    }
}

/// Sets the ratio of the split `split_id`, where the layout holds it, and says
/// whether it does.
pub fn resize_split(layout: &mut PaneLayout, split_id: SplitId, ratio: SplitRatio) -> (resized:
    bool)
    ensures
        resized == old(layout).holds_split(split_id),
        resized ==> *final(layout) == old(layout).resized(split_id, ratio),
        !resized ==> *final(layout) == *old(layout),
    decreases *old(layout),
{
    match layout {
        PaneLayout::Pane(_) => false,
        PaneLayout::Split(split) => {
            if split.id == split_id {
                split.ratio = ratio;
                true
            } else if resize_split(&mut split.first, split_id, ratio) {
                true
            } else {
                resize_split(&mut split.second, split_id, ratio)
            }
        },
    }
}

/// The ratio of the split `split_id`, outer splits before inner ones.
pub fn find_split_ratio(layout: &PaneLayout, split_id: SplitId) -> (found: Option<SplitRatio>)
    ensures
        found == layout.find_ratio(split_id),
    decreases layout,
{
    match layout {
        PaneLayout::Pane(_) => None,
        PaneLayout::Split(split) => if split.id == split_id {
            Some(split.ratio)
        } else {
            match find_split_ratio(&split.first, split_id) {
                Some(ratio) => Some(ratio),
                None => find_split_ratio(&split.second, split_id),
            }
        },
    }
}

} // verus!
