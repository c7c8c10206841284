//! Where the parts of a message stand among its bytes.

use super::format::{items_form, items_refusal, parse_items, Id, Items, Parsed, Wire, WireError};
use super::frame::{framed, unframed};
use super::hierarchy::layout_refusal;
use super::update::{head_fields, parse_cells, Cursor, HeadForm};
use crate::bytes::{
    counted, eight, four, law_le_round_trip, le_bytes, lemma_byte_ranges, lemma_eight, lemma_four,
    lemma_joined, lemma_joined_four, lemma_joined_six, lemma_le_bytes_len, lemma_two, two, worded,
};
use crate::core_model::{
    CommandView, CoreCommand, CoreModelError, CoreSnapshot, CreatedResource, HierarchyView,
    PaneLayout, ResourceKind, SessionView, SpaceSnapshot, SpaceView, SplitAxis, SplitPlacement,
    SplitRatio, TabSnapshot, TabView, TerminalSessionSnapshot,
};
use crate::resident_core::protocol::{
    ControlLease, ControlLeaseDenial, Request, RequestView, Response, ResponseView,
    SemanticEventKind, SemanticEventKindView, TerminalUpdate, UpdateView,
};
use crate::terminal::{
    lemma_ascending_rows, update_objection, CellView, LifecycleView, TerminalCell,
    TerminalLifecycle,
};
use vstd::prelude::*;
use vstd::utf8::encode_utf8;

verus! {

/// Numbers stand with their least significant byte first.
pub proof fn law_numbers_stand_least_significant_first(value: u64)
    ensures
        u64::form(value) == eight(value),
        value <= u32::MAX ==> u32::form(value as u32) == four(value as nat),
        value <= u16::MAX ==> u16::form(value as u16) == two(value as u16),
        value <= u8::MAX ==> u8::form(value as u8) == seq![value as u8],
        value <= u32::MAX ==> usize::form(value as usize) == four(value as nat),
{
    lemma_eight(value);
    lemma_four(value as nat);
    if value <= u16::MAX {
        lemma_two(value as u16);
    }
}

/// A list stands behind its count, one item after the other.
pub proof fn law_items_follow_their_count<T: Wire>(
    first: Seq<T::V>,
    second: Seq<T::V>,
    value: T::V,
)
    ensures
        items_form::<T>(Seq::empty()) == Seq::<u8>::empty(),
        items_form::<T>(seq![value]) == T::form(value),
        items_form::<T>(first + second) == items_form::<T>(first) + items_form::<T>(second),
    decreases second.len(),
{
    let alone = seq![value];
    assert(alone.drop_last() =~= Seq::empty());
    assert(items_form::<T>(Seq::<T::V>::empty()) =~= Seq::<u8>::empty());
    assert(alone.last() == value);
    assert(items_form::<T>(alone) =~= T::form(value));
    if second.len() == 0 {
        assert(first + second =~= first);
        assert(items_form::<T>(first) + items_form::<T>(second) =~= items_form::<T>(first));
    } else {
        law_items_follow_their_count::<T>(first, second.drop_last(), value);
        assert((first + second).drop_last() =~= first + second.drop_last());
        assert(items_form::<T>(first + second) =~= items_form::<T>(first) + items_form::<T>(
            second,
        ));
    }
}

/// A request is its kind, and then what it asks for: the session before the lease,
/// and the lease before what is sent.
pub proof fn law_requests_stand_behind_their_kind(request: RequestView)
    ensures
        Request::form(request) == match request {
            RequestView::Hello { version, nonce } => seq![1u8] + two(version) + nonce,
            RequestView::Input { terminal_session_id, lease_generation, bytes } => seq![2u8]
                + eight(terminal_session_id.0) + eight(lease_generation) + counted(bytes),
            RequestView::Resize { terminal_session_id, lease_generation, size } => seq![3u8]
                + eight(terminal_session_id.0) + eight(lease_generation) + two(size.cols) + two(
                size.rows,
            ) + two(size.cell_width_px) + two(size.cell_height_px),
            RequestView::Snapshot { terminal_session_id, since } => seq![4u8] + eight(
                terminal_session_id.0,
            ) + match since {
                Some(revision) => seq![1u8] + eight(revision),
                None => seq![0u8],
            },
            RequestView::StopResidentCore => seq![5u8],
            RequestView::ControlLease { terminal_session_id } => seq![6u8] + eight(
                terminal_session_id.0,
            ),
            RequestView::TransferControl { terminal_session_id, lease_generation, target } => {
                seq![7u8] + eight(terminal_session_id.0) + eight(lease_generation) + eight(target.0)
            },
            RequestView::AcquireControl { terminal_session_id, lease_generation } => seq![8u8]
                + eight(terminal_session_id.0) + eight(lease_generation),
            RequestView::Detach => seq![9u8],
            RequestView::CoreSnapshot => seq![10u8],
            RequestView::ApplyCoreCommand { expected_revision, command } => seq![11u8] + eight(
                expected_revision,
            ) + CoreCommand::form(command),
            RequestView::Paste { terminal_session_id, lease_generation, bytes } => seq![12u8]
                + eight(terminal_session_id.0) + eight(lease_generation) + counted(bytes),
        },
{
    match request {
        RequestView::Hello { version, nonce } => {
            lemma_two(version);
            assert(Request::form(request) =~= seq![1u8] + two(version) + nonce);
        },
        RequestView::Input { terminal_session_id, lease_generation, bytes } => {
            lemma_eight(terminal_session_id.0);
            lemma_eight(lease_generation);
            lemma_four(bytes.len());
            assert(Request::form(request) =~= seq![2u8] + eight(terminal_session_id.0) + eight(
                lease_generation,
            ) + counted(bytes));
        },
        RequestView::Paste { terminal_session_id, lease_generation, bytes } => {
            lemma_eight(terminal_session_id.0);
            lemma_eight(lease_generation);
            lemma_four(bytes.len());
            assert(Request::form(request) =~= seq![12u8] + eight(terminal_session_id.0) + eight(
                lease_generation,
            ) + counted(bytes));
        },
        RequestView::Resize { terminal_session_id, lease_generation, size } => {
            lemma_eight(terminal_session_id.0);
            lemma_eight(lease_generation);
            lemma_two(size.cols);
            lemma_two(size.rows);
            lemma_two(size.cell_width_px);
            lemma_two(size.cell_height_px);
            assert(Request::form(request) =~= seq![3u8] + eight(terminal_session_id.0) + eight(
                lease_generation,
            ) + two(size.cols) + two(size.rows) + two(size.cell_width_px) + two(
                size.cell_height_px,
            ));
        },
        RequestView::Snapshot { terminal_session_id, since } => {
            lemma_eight(terminal_session_id.0);
            match since {
                Some(revision) => {
                    lemma_eight(revision);
                    assert(Request::form(request) =~= seq![4u8] + eight(terminal_session_id.0) + (
                    seq![1u8] + eight(revision)));
                },
                None => {
                    assert(Request::form(request) =~= seq![4u8] + eight(terminal_session_id.0)
                        + seq![0u8]);
                },
            }
        },
        RequestView::ControlLease { terminal_session_id } => {
            lemma_eight(terminal_session_id.0);
        },
        RequestView::TransferControl { terminal_session_id, lease_generation, target } => {
            lemma_eight(terminal_session_id.0);
            lemma_eight(lease_generation);
            lemma_eight(target.0);
            assert(Request::form(request) =~= seq![7u8] + eight(terminal_session_id.0) + eight(
                lease_generation,
            ) + eight(target.0));
        },
        RequestView::AcquireControl { terminal_session_id, lease_generation } => {
            lemma_eight(terminal_session_id.0);
            lemma_eight(lease_generation);
            assert(Request::form(request) =~= seq![8u8] + eight(terminal_session_id.0) + eight(
                lease_generation,
            ));
        },
        RequestView::ApplyCoreCommand { expected_revision, command } => {
            lemma_eight(expected_revision);
            assert(Request::form(request) =~= seq![11u8] + eight(expected_revision)
                + CoreCommand::form(command));
        },
        _ => {},
    }
}

/// An axis and a place in one byte each, and a ratio in two.
pub open spec fn divided(axis: SplitAxis, placement: SplitPlacement, ratio: SplitRatio) -> Seq<u8> {
    seq![
        if axis == SplitAxis::Horizontal {
            0u8
        } else {
            1u8
        },
        if placement == SplitPlacement::Before {
            0u8
        } else {
            1u8
        },
    ] + two(ratio.parts())
}

/// A command is its kind, and then what it is about before what becomes of it.
pub proof fn law_commands_stand_behind_their_kind(command: CommandView)
    requires
        command matches CommandView::ReorderTab { index, .. } ==> index <= u32::MAX,
    ensures
        CoreCommand::form(command) == match command {
            CommandView::CreateSpace { name, directory } => seq![0u8] + worded(name) + counted(
                directory,
            ),
            CommandView::RenameSpace { space_id, name } => seq![1u8] + eight(space_id.0) + worded(
                name,
            ),
            CommandView::CreateTab { space_id, name } => seq![2u8] + eight(space_id.0) + worded(
                name,
            ),
            CommandView::RenameTab { tab_id, name } => seq![3u8] + eight(tab_id.0) + worded(name),
            CommandView::ReorderTab { tab_id, index } => seq![4u8] + eight(tab_id.0) + four(
                index as nat,
            ),
            CommandView::SplitPane { pane_id, axis, placement, ratio } => seq![5u8] + eight(
                pane_id.0,
            ) + divided(axis, placement, ratio),
            CommandView::MovePane { pane_id, target_pane_id, axis, placement, ratio } => seq![6u8]
                + eight(pane_id.0) + eight(target_pane_id.0) + divided(axis, placement, ratio),
            CommandView::ResizeSplit { split_id, ratio } => seq![7u8] + eight(split_id.0) + two(
                ratio.parts(),
            ),
            CommandView::ClosePane { pane_id } => seq![8u8] + eight(pane_id.0),
            CommandView::CloseTab { tab_id } => seq![9u8] + eight(tab_id.0),
            CommandView::CloseSpace { space_id } => seq![10u8] + eight(space_id.0),
        },
{
    match command {
        CommandView::CreateSpace { name, directory } => {
            lemma_four(encode_utf8(name).len());
            lemma_four(directory.len());
            lemma_joined(seq![0u8], worded(name), counted(directory));
        },
        CommandView::RenameSpace { space_id, name } => {
            lemma_eight(space_id.0);
            lemma_four(encode_utf8(name).len());
            lemma_joined(seq![1u8], eight(space_id.0), worded(name));
        },
        CommandView::CreateTab { space_id, name } => {
            lemma_eight(space_id.0);
            lemma_four(encode_utf8(name).len());
            lemma_joined(seq![2u8], eight(space_id.0), worded(name));
        },
        CommandView::RenameTab { tab_id, name } => {
            lemma_eight(tab_id.0);
            lemma_four(encode_utf8(name).len());
            lemma_joined(seq![3u8], eight(tab_id.0), worded(name));
        },
        CommandView::ReorderTab { tab_id, index } => {
            lemma_eight(tab_id.0);
            lemma_four(index as nat);
            lemma_joined(seq![4u8], eight(tab_id.0), four(index as nat));
        },
        CommandView::SplitPane { pane_id, axis, placement, ratio } => {
            lemma_eight(pane_id.0);
            lemma_divided(axis, placement, ratio);
            lemma_joined(seq![5u8], eight(pane_id.0), divided(axis, placement, ratio));
        },
        CommandView::MovePane { pane_id, target_pane_id, axis, placement, ratio } => {
            lemma_eight(pane_id.0);
            lemma_eight(target_pane_id.0);
            lemma_divided(axis, placement, ratio);
            lemma_joined_four(
                seq![6u8],
                eight(pane_id.0),
                eight(target_pane_id.0),
                divided(axis, placement, ratio),
            );
        },
        CommandView::ResizeSplit { split_id, ratio } => {
            lemma_eight(split_id.0);
            lemma_two(ratio.parts());
            lemma_joined(seq![7u8], eight(split_id.0), two(ratio.parts()));
        },
        CommandView::ClosePane { pane_id } => {
            lemma_eight(pane_id.0);
        },
        CommandView::CloseTab { tab_id } => {
            lemma_eight(tab_id.0);
        },
        CommandView::CloseSpace { space_id } => {
            lemma_eight(space_id.0);
        },
    }
}

proof fn lemma_divided(axis: SplitAxis, placement: SplitPlacement, ratio: SplitRatio)
    ensures
        SplitAxis::form(axis) + (SplitPlacement::form(placement) + SplitRatio::form(ratio))
            == divided(axis, placement, ratio),
{
    lemma_two(ratio.parts());
    assert(SplitAxis::form(axis) + (SplitPlacement::form(placement) + SplitRatio::form(ratio))
        =~= divided(axis, placement, ratio));
}

/// A lease is its session, its generation, and its controller where it has one; a
/// denial is told by one byte.
pub proof fn law_leases_tell_their_controller(lease: ControlLease, reason: ControlLeaseDenial)
    ensures
        ControlLease::form(lease) == eight(lease.terminal_session_id.0) + eight(lease.generation)
            + match lease.controller {
            Some(client) => seq![1u8] + eight(client.0),
            None => seq![0u8],
        },
        ControlLeaseDenial::form(reason) == seq![
            match reason {
                ControlLeaseDenial::HeldByOther => 0u8,
                ControlLeaseDenial::StaleGeneration => 1,
                ControlLeaseDenial::TargetUnavailable => 2,
                ControlLeaseDenial::NoController => 3,
            },
        ],
{
    lemma_eight(lease.terminal_session_id.0);
    lemma_eight(lease.generation);
    match lease.controller {
        Some(client) => {
            lemma_eight(client.0);
            assert(ControlLease::form(lease) =~= eight(lease.terminal_session_id.0) + eight(
                lease.generation,
            ) + (seq![1u8] + eight(client.0)));
        },
        None => {
            assert(ControlLease::form(lease) =~= eight(lease.terminal_session_id.0) + eight(
                lease.generation,
            ) + seq![0u8]);
        },
    }
}

/// What has become of a process: that it runs, that it exited, or why it failed.
pub proof fn law_lifecycles_stand_in_a_byte(lifecycle: LifecycleView)
    ensures
        TerminalLifecycle::form(lifecycle) == match lifecycle {
            LifecycleView::Running => seq![0u8],
            LifecycleView::Exited => seq![1u8],
            LifecycleView::Failed(error) => seq![2u8] + worded(error),
        },
{
    if let LifecycleView::Failed(error) = lifecycle {
        lemma_four(encode_utf8(error).len());
    }
}

/// An event that is told to all is its kind, and then what it tells of.
pub proof fn law_events_stand_behind_their_kind(event: SemanticEventKindView)
    ensures
        SemanticEventKind::form(event) == match event {
            SemanticEventKindView::ControlLeaseChanged { lease } => seq![0u8] + ControlLease::form(
                lease,
            ),
            SemanticEventKindView::TerminalLifecycleChanged {
                terminal_session_id,
                lifecycle,
                terminal_revision,
            } => seq![1u8] + eight(terminal_session_id.0) + TerminalLifecycle::form(lifecycle)
                + eight(terminal_revision),
            SemanticEventKindView::HierarchyChanged { revision } => seq![2u8] + eight(revision),
        },
{
    match event {
        SemanticEventKindView::ControlLeaseChanged { .. } => {},
        SemanticEventKindView::TerminalLifecycleChanged {
            terminal_session_id,
            lifecycle,
            terminal_revision,
        } => {
            lemma_eight(terminal_session_id.0);
            lemma_eight(terminal_revision);
            assert(SemanticEventKind::form(event) =~= seq![1u8] + eight(terminal_session_id.0)
                + TerminalLifecycle::form(lifecycle) + eight(terminal_revision));
        },
        SemanticEventKindView::HierarchyChanged { revision } => {
            lemma_eight(revision);
        },
    }
}

/// An error of the hierarchy is its kind, and then what it is about.
pub proof fn law_errors_stand_behind_their_kind(error: CoreModelError)
    requires
        error matches CoreModelError::TabIndexOutOfBounds { index, tab_count } ==> index
            <= u32::MAX && tab_count <= u32::MAX,
    ensures
        CoreModelError::form(error) == match error {
            CoreModelError::StaleRevision { expected, actual } => seq![0u8] + eight(expected)
                + eight(actual),
            CoreModelError::NotFound { kind, id } => seq![
                1u8,
                match kind {
                    ResourceKind::Space => 0,
                    ResourceKind::Tab => 1,
                    ResourceKind::Pane => 2,
                    ResourceKind::Split => 3,
                    ResourceKind::TerminalSession => 4,
                },
            ] + eight(id),
            CoreModelError::InvalidName => seq![2u8],
            CoreModelError::InvalidDirectory => seq![3u8],
            CoreModelError::InvalidSplitRatio(ratio) => seq![4u8] + two(ratio),
            CoreModelError::TabIndexOutOfBounds { index, tab_count } => seq![5u8] + four(
                index as nat,
            ) + four(tab_count as nat),
            CoreModelError::CannotMovePaneOntoItself => seq![6u8],
        },
{
    match error {
        CoreModelError::StaleRevision { expected, actual } => {
            lemma_eight(expected);
            lemma_eight(actual);
            assert(CoreModelError::form(error) =~= seq![0u8] + eight(expected) + eight(actual));
        },
        CoreModelError::NotFound { kind, id } => {
            lemma_eight(id);
            assert(CoreModelError::form(error) =~= seq![
                1u8,
                match kind {
                    ResourceKind::Space => 0,
                    ResourceKind::Tab => 1,
                    ResourceKind::Pane => 2,
                    ResourceKind::Split => 3,
                    ResourceKind::TerminalSession => 4,
                },
            ] + eight(id));
        },
        CoreModelError::InvalidSplitRatio(ratio) => {
            lemma_two(ratio);
        },
        CoreModelError::TabIndexOutOfBounds { index, tab_count } => {
            lemma_four(index as nat);
            lemma_four(tab_count as nat);
            assert(CoreModelError::form(error) =~= seq![5u8] + four(index as nat) + four(
                tab_count as nat,
            ));
        },
        _ => {},
    }
}

/// What a command brought into being: its kind, and the identities from the outside
/// in, with the session last.
pub proof fn law_created_things_stand_behind_their_kind(created: CreatedResource)
    ensures
        CreatedResource::form(created) == match created {
            CreatedResource::Nothing => seq![0u8],
            CreatedResource::Space { space_id, tab_id, pane_id, terminal_session_id } => seq![1u8]
                + eight(space_id.0) + eight(tab_id.0) + eight(pane_id.0) + eight(
                terminal_session_id.0,
            ),
            CreatedResource::Tab { tab_id, pane_id, terminal_session_id } => seq![2u8] + eight(
                tab_id.0,
            ) + eight(pane_id.0) + eight(terminal_session_id.0),
            CreatedResource::Pane { pane_id, split_id, terminal_session_id } => seq![3u8] + eight(
                pane_id.0,
            ) + eight(split_id.0) + eight(terminal_session_id.0),
        },
{
    match created {
        CreatedResource::Nothing => {},
        CreatedResource::Space { space_id, tab_id, pane_id, terminal_session_id } => {
            lemma_eight(space_id.0);
            lemma_eight(tab_id.0);
            lemma_eight(pane_id.0);
            lemma_eight(terminal_session_id.0);
            assert(CreatedResource::form(created) =~= seq![1u8] + eight(space_id.0) + eight(
                tab_id.0,
            ) + eight(pane_id.0) + eight(terminal_session_id.0));
        },
        CreatedResource::Tab { tab_id, pane_id, terminal_session_id } => {
            lemma_eight(tab_id.0);
            lemma_eight(pane_id.0);
            lemma_eight(terminal_session_id.0);
            assert(CreatedResource::form(created) =~= seq![2u8] + eight(tab_id.0) + eight(
                pane_id.0,
            ) + eight(terminal_session_id.0));
        },
        CreatedResource::Pane { pane_id, split_id, terminal_session_id } => {
            lemma_eight(pane_id.0);
            lemma_eight(split_id.0);
            lemma_eight(terminal_session_id.0);
            assert(CreatedResource::form(created) =~= seq![3u8] + eight(pane_id.0) + eight(
                split_id.0,
            ) + eight(terminal_session_id.0));
        },
    }
}

/// A layout is a Pane with its session, or a split with its axis and its ratio and
/// then its two sides.
pub proof fn law_layouts_stand_from_the_outside_in(layout: PaneLayout)
    ensures
        PaneLayout::form(layout) == match layout {
            PaneLayout::Pane(pane) => seq![0u8] + eight(pane.id.0) + eight(
                pane.terminal_session_id.0,
            ),
            PaneLayout::Split(split) => seq![1u8] + eight(split.id.0) + seq![
                if split.axis == SplitAxis::Horizontal {
                    0u8
                } else {
                    1u8
                },
            ] + two(split.ratio.parts()) + PaneLayout::form(*split.first) + PaneLayout::form(
                *split.second,
            ),
        },
{
    match layout {
        PaneLayout::Pane(pane) => {
            lemma_eight(pane.id.0);
            lemma_eight(pane.terminal_session_id.0);
            assert(PaneLayout::form(layout) =~= seq![0u8] + eight(pane.id.0) + eight(
                pane.terminal_session_id.0,
            ));
        },
        PaneLayout::Split(split) => {
            lemma_eight(split.id.0);
            lemma_two(split.ratio.parts());
            assert(PaneLayout::form(layout) =~= seq![1u8] + eight(split.id.0) + seq![
                if split.axis == SplitAxis::Horizontal {
                    0u8
                } else {
                    1u8
                },
            ] + two(split.ratio.parts()) + PaneLayout::form(*split.first) + PaneLayout::form(
                *split.second,
            ));
        },
    }
}

/// A hierarchy is its revision, its Spaces with their Tabs, and its sessions with
/// their directories.
pub proof fn law_hierarchies_stand_from_the_outside_in(
    hierarchy: HierarchyView,
    space: SpaceView,
    tab: TabView,
    session: SessionView,
)
    ensures
        CoreSnapshot::form(hierarchy) == eight(hierarchy.revision) + four(hierarchy.spaces.len())
            + items_form::<SpaceSnapshot>(hierarchy.spaces) + four(hierarchy.sessions.len())
            + items_form::<TerminalSessionSnapshot>(hierarchy.sessions),
        SpaceSnapshot::form(space) == eight(space.id.0) + worded(space.name) + counted(
            space.directory,
        ) + four(space.tabs.len()) + items_form::<TabSnapshot>(space.tabs),
        TabSnapshot::form(tab) == eight(tab.id.0) + worded(tab.name) + PaneLayout::form(tab.layout),
        TerminalSessionSnapshot::form(session) == eight(session.id.0) + counted(
            session.working_directory,
        ) + seq![0u8],
{
    lemma_eight(hierarchy.revision);
    lemma_four(hierarchy.spaces.len());
    lemma_four(hierarchy.sessions.len());
    lemma_eight(space.id.0);
    lemma_four(encode_utf8(space.name).len());
    lemma_four(space.directory.len());
    lemma_four(space.tabs.len());
    lemma_eight(tab.id.0);
    lemma_four(encode_utf8(tab.name).len());
    lemma_eight(session.id.0);
    lemma_four(session.working_directory.len());
    assert(CoreSnapshot::form(hierarchy) =~= eight(hierarchy.revision) + four(
        hierarchy.spaces.len(),
    ) + items_form::<SpaceSnapshot>(hierarchy.spaces) + four(hierarchy.sessions.len())
        + items_form::<TerminalSessionSnapshot>(hierarchy.sessions));
    assert(SpaceSnapshot::form(space) =~= eight(space.id.0) + worded(space.name) + counted(
        space.directory,
    ) + four(space.tabs.len()) + items_form::<TabSnapshot>(space.tabs));
    assert(TabSnapshot::form(tab) =~= eight(tab.id.0) + worded(tab.name) + PaneLayout::form(
        tab.layout,
    ));
    assert(TerminalSessionSnapshot::form(session) =~= eight(session.id.0) + counted(
        session.working_directory,
    ) + seq![0u8]);
}

/// A cell is its place, its width, its text, its two colors, and whether it was
/// given the second.
pub proof fn law_cells_stand_with_their_place_first(cell: CellView)
    ensures
        TerminalCell::form(cell) == two(cell.x) + two(cell.y) + seq![cell.width] + worded(cell.text)
            + cell.fg + cell.bg + seq![
            if cell.has_explicit_bg {
                1u8
            } else {
                0u8
            },
        ],
{
    lemma_two(cell.x);
    lemma_two(cell.y);
    lemma_four(encode_utf8(cell.text).len());
    assert(TerminalCell::form(cell) =~= two(cell.x) + two(cell.y) + seq![cell.width] + worded(
        cell.text,
    ) + cell.fg + cell.bg + seq![
        if cell.has_explicit_bg {
            1u8
        } else {
            0u8
        },
    ]);
}

/// An update of a terminal is the revision that it builds on, its own, what has
/// become of the process, the size of the grid, the cursor, the colors of what is
/// blank, the rows and the cells.
pub proof fn law_updates_stand_with_their_revisions_first(update: UpdateView)
    requires
        update.dirty_rows.len() <= u16::MAX,
        update.cells.len() <= u32::MAX,
    ensures
        TerminalUpdate::form(update) == (match update.base_revision {
            Some(revision) => seq![1u8] + eight(revision),
            None => seq![0u8],
        }) + eight(update.revision) + TerminalLifecycle::form(update.lifecycle) + two(update.cols)
            + two(update.rows) + (match update.cursor {
            Some((x, y)) => seq![1u8] + two(x) + two(y),
            None => seq![0u8],
        }) + update.default_fg + update.default_bg + two(update.dirty_rows.len() as u16)
            + items_form::<u16>(update.dirty_rows) + four(update.cells.len()) + items_form::<
            TerminalCell,
        >(update.cells),
{
    lemma_eight(update.revision);
    lemma_two(update.cols);
    lemma_two(update.rows);
    lemma_two(update.dirty_rows.len() as u16);
    lemma_four(update.cells.len());
    if let Some(revision) = update.base_revision {
        lemma_eight(revision);
    }
    if let Some((x, y)) = update.cursor {
        lemma_two(x);
        lemma_two(y);
    }
    let base = match update.base_revision {
        Some(revision) => seq![1u8] + eight(revision),
        None => seq![0u8],
    };
    let cursor = match update.cursor {
        Some((x, y)) => seq![1u8] + two(x) + two(y),
        None => seq![0u8],
    };
    let cursor_form = Cursor::form(update.cursor);
    assert(cursor_form =~= cursor);
    let count = two(update.dirty_rows.len() as u16);
    let rows = items_form::<u16>(update.dirty_rows);
    let number = four(update.cells.len());
    let cells = items_form::<TerminalCell>(update.cells);
    let life = TerminalLifecycle::form(update.lifecycle);
    let colors = update.default_fg + (update.default_bg + count);
    let head = HeadForm::form(head_fields(update));
    assert(head == base + (eight(update.revision) + (life + (two(update.cols) + (two(update.rows)
        + (cursor + colors))))));
    lemma_joined_four(base, eight(update.revision), life, two(update.cols) + (two(update.rows) + (
    cursor + colors)));
    let front = base + eight(update.revision) + life;
    lemma_joined_four(front, two(update.cols), two(update.rows), cursor + colors);
    lemma_joined(front + two(update.cols) + two(update.rows), cursor, colors);
    let middle = front + two(update.cols) + two(update.rows) + cursor;
    lemma_joined(middle, update.default_fg, update.default_bg + count);
    lemma_joined(middle + update.default_fg, update.default_bg, count);
    lemma_joined(head, rows, number + cells);
    lemma_joined(head + rows, number, cells);
}

/// A response is its kind, and then what it tells.
pub proof fn law_responses_stand_behind_their_kind(response: ResponseView)
    ensures
        Response::form(response) == match response {
            ResponseView::Ready {
                version,
                proof_bytes,
                client_id,
                snapshot,
                leases,
                semantic_sequence,
            } => seq![1u8] + two(version) + proof_bytes + eight(client_id.0) + CoreSnapshot::form(
                snapshot,
            ) + four(leases.len()) + items_form::<ControlLease>(leases) + eight(semantic_sequence),
            ResponseView::Ack => seq![2u8],
            ResponseView::Snapshot(update) => match update {
                Some(update) => seq![3u8, 1u8] + TerminalUpdate::form(update),
                None => seq![3u8, 0u8],
            },
            ResponseView::Error(error) => seq![4u8] + worded(error),
            ResponseView::TerminalChanged(change) => seq![5u8] + eight(change.sequence) + eight(
                change.terminal_session_id.0,
            ) + eight(change.terminal_revision),
            ResponseView::ControlLease(lease) => seq![6u8] + ControlLease::form(lease),
            ResponseView::ControlLeaseDenied { reason, lease } => seq![7u8]
                + ControlLeaseDenial::form(reason) + ControlLease::form(lease),
            ResponseView::SemanticEvent(event) => seq![8u8] + eight(event.sequence)
                + SemanticEventKind::form(event.kind),
            ResponseView::ResnapshotRequired => seq![9u8],
            ResponseView::CoreSnapshot(snapshot) => seq![10u8] + CoreSnapshot::form(snapshot),
            ResponseView::CoreCommandAccepted(outcome) => seq![11u8] + eight(outcome.revision)
                + CoreSnapshot::form(outcome.snapshot) + CreatedResource::form(outcome.created)
                + four(outcome.control_leases.len()) + items_form::<ControlLease>(
                outcome.control_leases,
            ),
            ResponseView::CoreCommandRejected(error) => seq![12u8] + CoreModelError::form(error),
        },
{
    match response {
        ResponseView::Ready {
            version,
            proof_bytes,
            client_id,
            snapshot,
            leases,
            semantic_sequence,
        } => {
            lemma_two(version);
            lemma_eight(client_id.0);
            lemma_four(leases.len());
            lemma_eight(semantic_sequence);
            let listed = four(leases.len()) + items_form::<ControlLease>(leases);
            let told = CoreSnapshot::form(snapshot);
            lemma_joined_six(
                seq![1u8],
                two(version),
                proof_bytes,
                eight(client_id.0),
                told,
                listed + eight(semantic_sequence),
            );
            let front = seq![1u8] + two(version) + proof_bytes + eight(client_id.0) + told;
            lemma_joined(front, listed, eight(semantic_sequence));
            lemma_joined(front, four(leases.len()), items_form::<ControlLease>(leases));
        },
        ResponseView::Snapshot(update) => match update {
            Some(update) => {
                assert(Response::form(response) =~= seq![3u8, 1u8] + TerminalUpdate::form(update));
            },
            None => {
                assert(Response::form(response) =~= seq![3u8, 0u8]);
            },
        },
        ResponseView::Error(error) => {
            lemma_four(encode_utf8(error).len());
        },
        ResponseView::TerminalChanged(change) => {
            lemma_eight(change.sequence);
            lemma_eight(change.terminal_session_id.0);
            lemma_eight(change.terminal_revision);
            lemma_joined_four(
                seq![5u8],
                eight(change.sequence),
                eight(change.terminal_session_id.0),
                eight(change.terminal_revision),
            );
        },
        ResponseView::ControlLeaseDenied { reason, lease } => {
            lemma_joined(seq![7u8], ControlLeaseDenial::form(reason), ControlLease::form(lease));
        },
        ResponseView::SemanticEvent(event) => {
            lemma_eight(event.sequence);
            lemma_joined(
                seq![8u8],
                eight(event.sequence),
                SemanticEventKind::form(event.kind),
            );
        },
        ResponseView::CoreCommandAccepted(outcome) => {
            lemma_eight(outcome.revision);
            lemma_four(outcome.control_leases.len());
            let told = CoreSnapshot::form(outcome.snapshot);
            let created = CreatedResource::form(outcome.created);
            let count = four(outcome.control_leases.len());
            let leases = items_form::<ControlLease>(outcome.control_leases);
            lemma_joined_six(seq![11u8], eight(outcome.revision), told, created, count, leases);
        },
        _ => {},
    }
}

/// A frame is the length of its payload in four bytes and the payload, which has at
/// most sixteen megabytes.
pub proof fn law_frames_begin_with_their_length<T: Wire>(message: T::V)
    ensures
        framed::<T>(message) is Ok <==> T::refusal(message) is None && T::form(message).len()
            <= 16777216,
        framed::<T>(message) is Ok ==> framed::<T>(message)->Ok_0 == four(T::form(message).len())
            + T::form(message),
        T::refusal(message) matches Some(error) ==> framed::<T>(message) == Err::<
            Seq<u8>,
            WireError,
        >(error),
{
    lemma_four(T::form(message).len());
}

/// What has no meaning is not read: kinds that are not known, an identity of zero,
/// a ratio that leaves a side too little room, and nothing at all.
pub proof fn law_what_has_no_meaning_is_refused(tag: u8, parts: u16, rest: Seq<u8>)
    ensures
        !(1 <= tag <= 12) ==> Request::parse(seq![tag] + rest) is Err,
        !(1 <= tag <= 12) ==> Response::parse(seq![tag] + rest) is Err,
        tag > 10 ==> CoreCommand::parse(seq![tag] + rest) is Err,
        tag > 2 ==> TerminalLifecycle::parse(seq![tag] + rest) is Err,
        tag > 1 ==> SplitAxis::parse(seq![tag] + rest) is Err,
        tag > 1 ==> SplitPlacement::parse(seq![tag] + rest) is Err,
        tag > 3 ==> ControlLeaseDenial::parse(seq![tag] + rest) is Err,
        tag > 2 ==> SemanticEventKind::parse(seq![tag] + rest) is Err,
        tag > 6 ==> CoreModelError::parse(seq![tag] + rest) is Err,
        tag > 4 ==> ResourceKind::parse(seq![tag] + rest) is Err,
        tag > 3 ==> CreatedResource::parse(seq![tag] + rest) is Err,
        tag > 1 ==> PaneLayout::parse(seq![tag] + rest) is Err,
        Id::parse(eight(0) + rest) == Parsed::<Id>::Err(WireError::ZeroId),
        !(100 <= parts <= 900) ==> SplitRatio::parse(two(parts) + rest) is Err,
        100 <= parts <= 900 ==> SplitRatio::parse(two(parts) + rest) is Ok,
        Request::parse(Seq::empty()) is Err,
        Response::parse(Seq::empty()) is Err,
{
    u8::round_trip(tag, rest);
    lemma_eight(0);
    u64::round_trip(0, rest);
    lemma_two(parts);
    u16::round_trip(parts, rest);
}

/// A frame holds its message and nothing else: neither one that is cut short nor one
/// that goes on is read.
pub proof fn law_frames_hold_one_message<T: Wire>(message: T::V, more: Seq<u8>, count: nat)
    requires
        framed::<T>(message) is Ok,
        more.len() > 0,
        count < framed::<T>(message)->Ok_0.len(),
    ensures
        unframed::<T>(framed::<T>(message)->Ok_0 + more) is Err,
        unframed::<T>(framed::<T>(message)->Ok_0.take(count as int)) is Err,
{
    let frame = framed::<T>(message)->Ok_0;
    let payload = T::form(message);
    lemma_byte_ranges();
    lemma_le_bytes_len(payload.len(), 4);
    law_le_round_trip(payload.len(), 4);
    assert((frame + more).take(4) =~= le_bytes(payload.len(), 4));
    if count >= 4 {
        assert(frame.take(count as int).take(4) =~= le_bytes(payload.len(), 4));
    }
}

/// How deep splits are nested in a layout, with the Panes.
pub open spec fn nesting(layout: PaneLayout) -> nat
    decreases layout,
{
    match layout {
        PaneLayout::Pane(_) => 1,
        PaneLayout::Split(split) => {
            let first = nesting(*split.first);
            let second = nesting(*split.second);
            1 + if first < second {
                second
            } else {
                first
            }
        },
    }
}

/// A layout can be sent where it is nested up to sixty-four deep.
pub proof fn law_deep_layouts_are_not_sent(layout: PaneLayout)
    ensures
        PaneLayout::refusal(layout) is None <==> nesting(layout) <= 64,
        PaneLayout::refusal(layout) is Some ==> PaneLayout::refusal(layout) == Some(
            WireError::LayoutTooDeep,
        ),
{
    lemma_nesting(layout, 0);
}

proof fn lemma_nesting(layout: PaneLayout, depth: nat)
    ensures
        layout_refusal(layout, depth) is None <==> depth + nesting(layout) <= 64,
        layout_refusal(layout, depth) is Some ==> layout_refusal(layout, depth) == Some(
            WireError::LayoutTooDeep,
        ),
    decreases layout,
{
    if let PaneLayout::Split(split) = layout {
        lemma_nesting(*split.first, depth + 1);
        lemma_nesting(*split.second, depth + 1);
    }
}

/// A list can be sent where it has up to sixteen thousand items, and each of them can.
pub proof fn law_long_lists_are_not_sent(tabs: Seq<TabView>, index: int)
    ensures
        tabs.len() > 16384 ==> Items::<TabSnapshot>::refusal(tabs) is Some,
        Items::<TabSnapshot>::refusal(tabs) is None && 0 <= index < tabs.len()
            ==> TabSnapshot::refusal(tabs[index]) is None,
        tabs.len() <= 16384 && (forall|i: int|
            0 <= i < tabs.len() ==> TabSnapshot::refusal(#[trigger] tabs[i]) is None)
            ==> Items::<TabSnapshot>::refusal(tabs) is None,
{
    lemma_items_accepted::<TabSnapshot>(tabs, index);
}

proof fn lemma_items_accepted<T: Wire>(values: Seq<T::V>, index: int)
    ensures
        items_refusal::<T>(values) is None && 0 <= index < values.len() ==> T::refusal(
            values[index],
        ) is None,
        (forall|i: int| 0 <= i < values.len() ==> T::refusal(#[trigger] values[i]) is None)
            ==> items_refusal::<T>(values) is None,
    decreases values.len(),
{
    if values.len() > 0 {
        let shorter = values.drop_last();
        lemma_items_accepted::<T>(shorter, index);
        if forall|i: int| 0 <= i < values.len() ==> T::refusal(#[trigger] values[i]) is None {
            assert forall|i: int| 0 <= i < shorter.len() implies T::refusal(
                #[trigger] shorter[i],
            ) is None by {
                assert(T::refusal(values[i]) is None);
            }
            assert(T::refusal(values[values.len() - 1]) is None);
        }
    }
}

/// An update that is read fits its grid and has no more than 65536 cells.
pub proof fn law_updates_that_are_read_fit(input: Seq<u8>, row: int, cell: int)
    requires
        TerminalUpdate::parse(input) is Ok,
    ensures
        ({
            let (update, _) = TerminalUpdate::parse(input)->Ok_0;
            &&& update.cols > 0 && update.rows > 0
            &&& update.cells.len() <= 65536
            &&& update.cursor matches Some((x, y)) ==> x < update.cols && y < update.rows
            &&& 0 <= row < update.dirty_rows.len() ==> update.dirty_rows[row] < update.rows
            &&& 0 < row < update.dirty_rows.len() ==> update.dirty_rows[row - 1]
                < update.dirty_rows[row]
            &&& update.base_revision is None ==> update.dirty_rows.len() == update.rows
            &&& 0 <= cell < update.cells.len() ==> {
                &&& update.cells[cell].x < update.cols
                &&& update.cells[cell].width <= 2
                &&& update.dirty_rows.contains(update.cells[cell].y)
            }
        }),
{
    let (head, body) = HeadForm::parse(input)->Ok_0;
    let (_, (_, (_, (cols, (rows, (_, (_, (_, row_count)))))))) = head;
    let (_, after_rows) = parse_items::<u16>(body, row_count as nat)->Ok_0;
    let (count, after_count) = u32::parse(after_rows)->Ok_0;
    lemma_counted_cells(after_count, count as nat, cols, rows);
}

proof fn lemma_counted_cells(input: Seq<u8>, count: nat, cols: u16, rows: u16)
    ensures
        parse_cells(input, count, cols, rows) matches Ok((cells, _)) ==> cells.len() == count,
    decreases count,
{
    if count > 0 {
        lemma_counted_cells(input, (count - 1) as nat, cols, rows);
    }
}

/// An update that fits can be sent: its texts are all that can be too long for it.
pub proof fn law_fitting_updates_can_be_sent(update: UpdateView)
    requires
        update_objection(
            update.base_revision is None,
            update.cols,
            update.rows,
            update.cursor,
            update.dirty_rows,
            update.cells,
        ) is None,
        update.cells.len() <= u32::MAX,
        update.lifecycle matches LifecycleView::Failed(error) ==> encode_utf8(error).len()
            <= u32::MAX,
        forall|i: int|
            0 <= i < update.cells.len() ==> encode_utf8((#[trigger] update.cells[i]).text).len()
                <= u32::MAX,
    ensures
        TerminalUpdate::refusal(update) is None,
{
    lemma_items_accepted::<TerminalCell>(update.cells, 0);
    lemma_ascending_rows(update.dirty_rows, update.rows, update.dirty_rows.len() as int);
    if update.dirty_rows.len() > 0 {
        assert(update.dirty_rows[update.dirty_rows.len() - 1] < update.rows);
    }
}

/// An update that can be sent and has no more than 65536 cells is read as it was.
pub proof fn law_updates_that_are_sent_are_read(update: UpdateView, rest: Seq<u8>)
    requires
        TerminalUpdate::refusal(update) is None,
        update.default_fg.len() == 3 && update.default_bg.len() == 3,
        update.cells.len() <= 65536,
        forall|i: int|
            0 <= i < update.cells.len() ==> (#[trigger] update.cells[i]).fg.len() == 3
                && update.cells[i].bg.len() == 3,
    ensures
        TerminalUpdate::parse(TerminalUpdate::form(update) + rest) == Parsed::<UpdateView>::Ok(
            (update, rest),
        ),
{
    TerminalUpdate::round_trip(update, rest);
}

} // verus!
