//! The hierarchy and its terminals within one process, as its windows see
//! them.

use crate::agent_integration::{
    law_asking_for_proceeding_blocks, law_asking_for_running_blocks,
    law_titles_that_require_action_block, state_of, AgentProgram, AgentSnapshot, AgentState,
};
use crate::core_model::{CoreSnapshot, CreatedResource, TerminalSessionId};
use crate::ghostty::{into_terminal_cells, option_chars, shown_cells, snapshot_text, Snapshot};
use crate::grid::{grid_chars, grid_text};
use crate::sequences::views;
use crate::table::Table;
use crate::terminal::{
    check_update, debug_number, in_grid_order, lemma_rows_replaced, outside_rows, put_debug_number,
    replace_rows, update_objection, CellView, LifecycleView, SnapshotError, TerminalCell,
    TerminalLifecycle, UpdateError,
};
use crate::text::{decimal, decimal_chars, lowercase};
use vstd::prelude::*;
use vstd::string::*;

pub mod exits;
pub mod refresh;
pub mod runtime;
pub mod steps;
pub mod worker;

verus! {

/// That a terminal has changed, and its revision since.
#[derive(Clone, Copy, Debug, PartialEq, Eq, Structural)]
pub struct TerminalChange {
    pub terminal_session_id: TerminalSessionId,
    pub terminal_revision: u64,
}

/// Something that is told to all who ask.
#[derive(Debug, PartialEq, Eq)]
pub struct SemanticEvent {
    pub kind: SemanticEventKind,
}

#[derive(Debug, PartialEq, Eq)]
pub enum SemanticEventKind {
    TerminalLifecycleChanged {
        terminal_session_id: TerminalSessionId,
        lifecycle: TerminalLifecycle,
        terminal_revision: u64,
    },
    HierarchyChanged { revision: u64 },
}

impl Clone for SemanticEventKind {
    fn clone(&self) -> (copy: Self)
        ensures
            copy == *self,
    {
        match self {
            SemanticEventKind::TerminalLifecycleChanged {
                terminal_session_id,
                lifecycle,
                terminal_revision,
            } => SemanticEventKind::TerminalLifecycleChanged {
                terminal_session_id: *terminal_session_id,
                lifecycle: lifecycle.clone(),
                terminal_revision: *terminal_revision,
            },
            SemanticEventKind::HierarchyChanged { revision } => {
                SemanticEventKind::HierarchyChanged { revision: *revision }
            },
        }
    }
}

impl Clone for SemanticEvent {
    fn clone(&self) -> (copy: Self)
        ensures
            copy == *self,
    {
        SemanticEvent { kind: self.kind.clone() }
    }
}

/// What an accepted command has come to.
#[derive(Debug, PartialEq, Eq)]
pub struct CoreCommandOutcome {
    pub revision: u64,
    pub snapshot: CoreSnapshot,
    pub created: CreatedResource,
}

/// A terminal at one revision.
#[derive(Debug, PartialEq, Eq)]
pub struct TerminalSnapshot {
    pub revision: u64,
    pub lifecycle: TerminalLifecycle,
    pub active_work: bool,
    pub title: Option<String>,
    pub agent: Option<AgentSnapshot>,
    pub cols: u16,
    pub rows: u16,
    pub cursor: Option<(u16, u16)>,
    pub default_fg: [u8; 3],
    pub default_bg: [u8; 3],
    pub cells: Vec<TerminalCell>,
}

#[verifier::ext_equal]
pub struct TerminalView {
    pub revision: u64,
    pub lifecycle: TerminalLifecycle,
    pub active_work: bool,
    pub title: Option<Seq<char>>,
    pub agent: Option<AgentSnapshot>,
    pub cols: u16,
    pub rows: u16,
    pub cursor: Option<(u16, u16)>,
    pub default_fg: [u8; 3],
    pub default_bg: [u8; 3],
    pub cells: Seq<TerminalCell>,
}

impl View for TerminalSnapshot {
    type V = TerminalView;

    open spec fn view(&self) -> TerminalView {
        TerminalView {
            revision: self.revision,
            lifecycle: self.lifecycle,
            active_work: self.active_work,
            title: option_chars(self.title),
            agent: self.agent,
            cols: self.cols,
            rows: self.rows,
            cursor: self.cursor,
            default_fg: self.default_fg,
            default_bg: self.default_bg,
            cells: self.cells@,
        }
    }
}

impl Clone for TerminalSnapshot {
    fn clone(&self) -> (copy: Self)
        ensures
            copy@ == self@,
    {
        let cells = self.cells.clone();
        proof {
            assert(cells@ =~= self.cells@);
        }
        TerminalSnapshot {
            revision: self.revision,
            lifecycle: self.lifecycle.clone(),
            active_work: self.active_work,
            title: match &self.title {
                Some(title) => Some(title.clone()),
                None => None,
            },
            agent: self.agent,
            cols: self.cols,
            rows: self.rows,
            cursor: self.cursor,
            default_fg: self.default_fg,
            default_bg: self.default_bg,
            cells,
        }
    }
}

/// The rows of a terminal that changed since `base_revision`, or all of them.
#[derive(Debug, PartialEq, Eq)]
pub struct TerminalUpdate {
    pub base_revision: Option<u64>,
    pub revision: u64,
    pub lifecycle: TerminalLifecycle,
    pub active_work: bool,
    pub title: Option<String>,
    pub agent: Option<AgentSnapshot>,
    pub cols: u16,
    pub rows: u16,
    pub cursor: Option<(u16, u16)>,
    pub default_fg: [u8; 3],
    pub default_bg: [u8; 3],
    pub dirty_rows: Vec<u16>,
    pub cells: Vec<TerminalCell>,
}

#[verifier::ext_equal]
pub struct TerminalUpdateView {
    pub base_revision: Option<u64>,
    pub revision: u64,
    pub lifecycle: LifecycleView,
    pub active_work: bool,
    pub title: Option<Seq<char>>,
    pub agent: Option<AgentSnapshot>,
    pub cols: u16,
    pub rows: u16,
    pub cursor: Option<(u16, u16)>,
    pub default_fg: Seq<u8>,
    pub default_bg: Seq<u8>,
    pub dirty_rows: Seq<u16>,
    pub cells: Seq<CellView>,
}

impl View for TerminalUpdate {
    type V = TerminalUpdateView;

    open spec fn view(&self) -> TerminalUpdateView {
        TerminalUpdateView {
            base_revision: self.base_revision,
            revision: self.revision,
            lifecycle: self.lifecycle@,
            active_work: self.active_work,
            title: option_chars(self.title),
            agent: self.agent,
            cols: self.cols,
            rows: self.rows,
            cursor: self.cursor,
            default_fg: self.default_fg@,
            default_bg: self.default_bg@,
            dirty_rows: self.dirty_rows@,
            cells: views(self.cells@),
        }
    }
}

/// A blank terminal of 80 by 24 cells.
pub open spec fn blank_update(revision: u64, lifecycle: LifecycleView) -> TerminalUpdateView {
    TerminalUpdateView {
        base_revision: None,
        revision,
        lifecycle,
        active_work: false,
        title: None,
        agent: None,
        cols: 80,
        rows: 24,
        cursor: None,
        default_fg: seq![0xd8, 0xde, 0xe9],
        default_bg: seq![0x0b, 0x0e, 0x13],
        dirty_rows: Seq::new(24, |row: int| row as u16),
        cells: Seq::empty(),
    }
}

/// What a program is doing in a terminal that shows `snapshot`.
pub open spec fn agent_shown(program: AgentProgram, snapshot: Snapshot) -> AgentSnapshot {
    let title = match snapshot.title {
        Some(title) => title@,
        None => ""@,
    };
    let screen = grid_chars(snapshot.cells@, snapshot.cols as nat, snapshot.rows as nat);
    AgentSnapshot {
        program,
        state: state_of(program, title, screen, lowercase(title), lowercase(screen)),
    }
}

/// The update that a snapshot of the emulator gives.
pub open spec fn rendered_update(
    snapshot: Snapshot,
    base_revision: Option<u64>,
    revision: u64,
    lifecycle: LifecycleView,
    active_work: bool,
    agent_program: Option<AgentProgram>,
) -> TerminalUpdateView {
    TerminalUpdateView {
        base_revision: if snapshot.full {
            None
        } else {
            base_revision
        },
        revision,
        lifecycle,
        active_work,
        title: option_chars(snapshot.title),
        agent: match agent_program {
            Some(program) => Some(agent_shown(program, snapshot)),
            None => None,
        },
        cols: snapshot.cols,
        rows: snapshot.rows,
        cursor: snapshot.cursor,
        default_fg: snapshot.default_fg@,
        default_bg: snapshot.default_bg@,
        dirty_rows: snapshot.dirty_rows@,
        cells: shown_cells(snapshot.cells@),
    }
}

impl TerminalUpdateView {
    /// The first objection to the update.
    pub open spec fn objection(self) -> Option<UpdateError> {
        update_objection(
            self.base_revision is None,
            self.cols,
            self.rows,
            self.cursor,
            self.dirty_rows,
            self.cells,
        )
    }

    /// The objection to the update where it has to be full.
    pub open spec fn full_objection(self) -> Option<SnapshotError> {
        if self.base_revision is Some {
            Some(SnapshotError::DeltaWithoutBase)
        } else {
            match self.objection() {
                Some(error) => Some(SnapshotError::Invalid(error)),
                None => None,
            }
        }
    }
}

impl TerminalView {
    /// The objection to an update of this snapshot.
    pub open spec fn delta_objection(self, update: TerminalUpdateView) -> Option<SnapshotError> {
        match update.objection() {
            Some(error) => Some(SnapshotError::Invalid(error)),
            None => if update.base_revision != Some(self.revision) {
                Some(
                    SnapshotError::RevisionGap { local: self.revision, base: update.base_revision },
                )
            } else if (update.cols, update.rows) != (self.cols, self.rows) {
                Some(SnapshotError::ChangedGeometry)
            } else {
                None
            },
        }
    }

    /// Whether `after` is this snapshot with the rows of an update replaced.
    pub open spec fn updates_to(self, update: TerminalUpdate, after: TerminalView) -> bool {
        &&& after == TerminalView {
            revision: update.revision,
            lifecycle: update.lifecycle,
            active_work: update.active_work,
            title: option_chars(update.title),
            agent: update.agent,
            cursor: update.cursor,
            default_fg: update.default_fg,
            default_bg: update.default_bg,
            cells: after.cells,
            ..self
        }
        &&& in_grid_order(after.cells)
        &&& after.cells.to_multiset() == self.cells.filter(
            outside_rows(update.dirty_rows@),
        ).to_multiset().add(update.cells@.to_multiset())
    }
}

/// The snapshot that a full update gives.
pub open spec fn full_view(update: TerminalUpdate) -> TerminalView {
    TerminalView {
        revision: update.revision,
        lifecycle: update.lifecycle,
        active_work: update.active_work,
        title: option_chars(update.title),
        agent: update.agent,
        cols: update.cols,
        rows: update.rows,
        cursor: update.cursor,
        default_fg: update.default_fg,
        default_bg: update.default_bg,
        cells: update.cells@,
    }
}

impl TerminalUpdate {
    pub fn from_terminal(
        snapshot: Snapshot,
        base_revision: Option<u64>,
        revision: u64,
        lifecycle: TerminalLifecycle,
        active_work: bool,
        agent_program: Option<AgentProgram>,
    ) -> (update: Self)
        ensures
            update@ == rendered_update(
                snapshot,
                base_revision,
                revision,
                lifecycle@,
                active_work,
                agent_program,
            ),
    {
        let agent = match agent_program {
            Some(program) => {
                let screen = snapshot_text(&snapshot);
                let title = match &snapshot.title {
                    Some(title) => Some(title.as_str()),
                    None => None,
                };
                Some(AgentSnapshot::from_screen(program, title, screen.as_str()))
            },
            None => None,
        };
        TerminalUpdate {
            base_revision: if snapshot.full {
                None
            } else {
                base_revision
            },
            revision,
            lifecycle,
            active_work,
            title: snapshot.title,
            agent,
            cols: snapshot.cols,
            rows: snapshot.rows,
            cursor: snapshot.cursor,
            default_fg: snapshot.default_fg,
            default_bg: snapshot.default_bg,
            dirty_rows: snapshot.dirty_rows,
            cells: into_terminal_cells(snapshot.cells),
        }
    }

    pub fn empty(revision: u64, lifecycle: TerminalLifecycle) -> (update: Self)
        ensures
            update@ == blank_update(revision, lifecycle@),
            update@.objection() is None,
    {
        let blank = crate::resident_core::protocol::TerminalUpdate::empty(revision, lifecycle);
        TerminalUpdate {
            base_revision: blank.base_revision,
            revision: blank.revision,
            lifecycle: blank.lifecycle,
            active_work: false,
            title: None,
            agent: None,
            cols: blank.cols,
            rows: blank.rows,
            cursor: blank.cursor,
            default_fg: blank.default_fg,
            default_bg: blank.default_bg,
            dirty_rows: blank.dirty_rows,
            cells: blank.cells,
        }
    }

    pub fn validate(&self) -> (result: Result<(), UpdateError>)
        ensures
            match self@.objection() {
                None => result is Ok,
                Some(error) => result == Err::<(), UpdateError>(error),
            },
    {
        check_update(
            self.base_revision.is_none(),
            self.cols,
            self.rows,
            self.cursor,
            &self.dirty_rows,
            &self.cells,
        )
    }
}

impl TerminalSnapshot {
    /// The text on the terminal, row by row.
    pub fn text(&self) -> (text: String)
        ensures
            text@ == grid_chars(self.cells@, self.cols as nat, self.rows as nat),
    {
        grid_text(&self.cells, self.cols, self.rows)
    }

    pub fn from_update(update: TerminalUpdate) -> (snapshot: Result<Self, SnapshotError>)
        ensures
            match update@.full_objection() {
                Some(error) => snapshot is Err && snapshot->Err_0 == error,
                None => snapshot is Ok && snapshot->Ok_0@ == full_view(update),
            },
    {
        if update.base_revision.is_some() {
            return Err(SnapshotError::DeltaWithoutBase);
        }
        if let Err(error) = update.validate() {
            return Err(SnapshotError::Invalid(error));
        }
        Ok(
            TerminalSnapshot {
                revision: update.revision,
                lifecycle: update.lifecycle,
                active_work: update.active_work,
                title: update.title,
                agent: update.agent,
                cols: update.cols,
                rows: update.rows,
                cursor: update.cursor,
                default_fg: update.default_fg,
                default_bg: update.default_bg,
                cells: update.cells,
            },
        )
    }

    pub fn apply_update(&mut self, update: TerminalUpdate) -> (result: Result<(), SnapshotError>)
        ensures
            match old(self)@.delta_objection(update@) {
                Some(error) => result is Err && result->Err_0 == error && final(self)@ == old(
                    self,
                )@,
                None => result is Ok && old(self)@.updates_to(update, final(self)@),
            },
            old(self)@.delta_objection(update@) is None ==> {
                &&& forall|cell: TerminalCell| #[trigger]
                    final(self).cells@.to_multiset().count(cell)
                        == if update.dirty_rows@.contains(cell.y) {
                        update.cells@.to_multiset().count(cell)
                    } else {
                        old(self).cells@.to_multiset().count(cell)
                    }
                &&& forall|i: int, j: int|
                    0 <= i < j < final(self).cells@.len() ==> {
                        let left = #[trigger] final(self).cells@[i];
                        let right = #[trigger] final(self).cells@[j];
                        left.y < right.y || (left.y == right.y && left.x <= right.x)
                    }
            },
    {
        if let Err(error) = update.validate() {
            return Err(SnapshotError::Invalid(error));
        }
        let follows = match update.base_revision {
            Some(base) => base == self.revision,
            None => false,
        };
        if !follows {
            return Err(
                SnapshotError::RevisionGap { local: self.revision, base: update.base_revision },
            );
        }
        if update.cols != self.cols || update.rows != self.rows {
            return Err(SnapshotError::ChangedGeometry);
        }
        replace_rows(&mut self.cells, &update.dirty_rows, self.rows, update.cells);
        proof {
            lemma_rows_replaced(
                old(self).cells@,
                update.dirty_rows@,
                update.cells@,
                update.cols,
                update.rows,
                self.cells@,
            );
        }
        self.revision = update.revision;
        self.lifecycle = update.lifecycle;
        self.active_work = update.active_work;
        self.title = update.title;
        self.agent = update.agent;
        self.cursor = update.cursor;
        self.default_fg = update.default_fg;
        self.default_bg = update.default_bg;
        Ok(())
    }
}

/// A row delta is taken exactly where it builds on the revision that is known,
/// keeps the size and fits; a full update wherever it fits, whatever was known.
pub proof fn law_deltas_build_on_what_is_known(before: TerminalView, update: TerminalUpdateView)
    ensures
        before.delta_objection(update) is None <==> {
            &&& update.base_revision == Some(before.revision)
            &&& update.cols == before.cols && update.rows == before.rows
            &&& update_objection(
                false,
                update.cols,
                update.rows,
                update.cursor,
                update.dirty_rows,
                update.cells,
            ) is None
        },
        update.full_objection() is None <==> {
            &&& update.base_revision is None
            &&& update_objection(
                true,
                update.cols,
                update.rows,
                update.cursor,
                update.dirty_rows,
                update.cells,
            ) is None
        },
{
}

/// After a row delta was taken the rows that it names hold exactly the cells that
/// it brings, and every other row the cells that it had; all of them stand row
/// by row. The size stays, and the rest is what the update says.
pub proof fn law_deltas_replace_their_rows(
    before: TerminalView,
    update: TerminalUpdate,
    after: TerminalView,
)
    requires
        before.delta_objection(update@) is None,
        before.updates_to(update, after),
    ensures
        forall|cell: TerminalCell| #[trigger]
            after.cells.to_multiset().count(cell) == if update.dirty_rows@.contains(cell.y) {
                update.cells@.to_multiset().count(cell)
            } else {
                before.cells.to_multiset().count(cell)
            },
        forall|i: int, j: int|
            0 <= i < j < after.cells.len() ==> {
                let left = #[trigger] after.cells[i];
                let right = #[trigger] after.cells[j];
                left.y < right.y || (left.y == right.y && left.x <= right.x)
            },
        after.cols == before.cols,
        after.rows == before.rows,
        after.revision == update.revision,
        after.lifecycle == update.lifecycle,
        after.cursor == update.cursor,
        after.default_fg == update.default_fg,
        after.default_bg == update.default_bg,
        after.active_work == update.active_work,
        after.agent == update.agent,
        after.title == match update.title {
            Some(title) => Some(title@),
            None => None,
        },
{
    lemma_rows_replaced(
        before.cells,
        update.dirty_rows@,
        update.cells@,
        update.cols,
        update.rows,
        after.cells,
    );
}

/// After a full update the terminal is what the update says, cell for cell.
pub proof fn law_full_updates_are_shown_whole(update: TerminalUpdate)
    ensures
        ({
            let after = full_view(update);
            &&& after.cells == update.cells@
            &&& after.cols == update.cols && after.rows == update.rows
            &&& after.revision == update.revision
            &&& after.lifecycle == update.lifecycle
            &&& after.cursor == update.cursor
            &&& after.default_fg == update.default_fg
            &&& after.default_bg == update.default_bg
            &&& after.active_work == update.active_work
            &&& after.agent == update.agent
            &&& after.title == match update.title {
                Some(title) => Some(title@),
                None => None,
            }
        }),
{
}

/// Why an update is not taken.
#[derive(Clone, Copy, Debug, PartialEq, Eq, Structural)]
pub enum RefreshError {
    NoBase(TerminalSessionId),
    Snapshot(SnapshotError),
}

impl RefreshError {
    pub open spec fn spec_message(self) -> Seq<char> {
        match self {
            RefreshError::NoBase(session) => "Terminal Session "@ + decimal_chars(
                session.0 as nat,
            ) + " has no base snapshot"@,
            RefreshError::Snapshot(SnapshotError::DeltaWithoutBase) => {
                "terminal runtime returned a delta without a base snapshot"@
            },
            RefreshError::Snapshot(SnapshotError::Invalid(error)) => error.spec_message(),
            RefreshError::Snapshot(SnapshotError::RevisionGap { local, base }) => {
                "terminal revision gap: local "@ + decimal_chars(local as nat) + ", update base "@
                    + debug_number(base)
            },
            RefreshError::Snapshot(SnapshotError::ChangedGeometry) => {
                "terminal runtime changed geometry in a row delta"@
            },
        }
    }

    pub fn message(self) -> (message: String)
        ensures
            message@ == self.spec_message(),
    {
        match self {
            RefreshError::NoBase(session) => {
                let mut message = "Terminal Session ".to_owned();
                message.append(decimal(session.0).as_str());
                message.append(" has no base snapshot");
                message
            },
            RefreshError::Snapshot(SnapshotError::DeltaWithoutBase) => {
                "terminal runtime returned a delta without a base snapshot".to_owned()
            },
            RefreshError::Snapshot(SnapshotError::Invalid(error)) => error.message(),
            RefreshError::Snapshot(SnapshotError::RevisionGap { local, base }) => {
                let mut message = "terminal revision gap: local ".to_owned();
                message.append(decimal(local).as_str());
                message.append(", update base ");
                put_debug_number(&mut message, base);
                message
            },
            RefreshError::Snapshot(SnapshotError::ChangedGeometry) => {
                "terminal runtime changed geometry in a row delta".to_owned()
            },
        }
    }
}

/// The objection to an update of a terminal of which `known` is known.
pub open spec fn refresh_objection(
    known: Map<u64, TerminalSnapshot>,
    session: TerminalSessionId,
    update: TerminalUpdateView,
) -> Option<RefreshError> {
    if update.base_revision is Some && !known.contains_key(session.0) {
        Some(RefreshError::NoBase(session))
    } else {
        let objection = if update.base_revision is None {
            update.full_objection()
        } else {
            known[session.0]@.delta_objection(update)
        };
        match objection {
            Some(error) => Some(RefreshError::Snapshot(error)),
            None => None,
        }
    }
}

/// Takes an update into what is known of a terminal: a full one replaces it,
/// whatever was known before.
pub fn apply_terminal_update(
    known: &mut Table<TerminalSnapshot>,
    session: TerminalSessionId,
    update: TerminalUpdate,
) -> (result: Result<TerminalSnapshot, RefreshError>)
    ensures
        match refresh_objection(old(known)@, session, update@) {
            Some(error) => {
                &&& result is Err && result->Err_0 == error
                &&& final(known)@.dom() == old(known)@.dom()
                &&& forall|id: u64| #[trigger]
                    old(known)@.contains_key(id) ==> final(known)@[id]@ == old(known)@[id]@
            },
            None => {
                &&& result is Ok
                &&& final(known)@.contains_key(session.0)
                &&& result->Ok_0@ == final(known)@[session.0]@
                &&& final(known)@ == old(known)@.insert(session.0, final(known)@[session.0])
                &&& if update.base_revision is None {
                    result->Ok_0@ == full_view(update)
                } else {
                    old(known)@[session.0]@.updates_to(update, result->Ok_0@)
                }
            },
        },
        result is Ok ==> {
            &&& final(known)@.contains_key(session.0)
            &&& final(known)@[session.0]@ == result->Ok_0@
        },
        result is Ok && update.base_revision is Some ==> forall|cell: TerminalCell| #[trigger]
            result->Ok_0.cells@.to_multiset().count(cell)
                == if update.dirty_rows@.contains(cell.y) {
                update.cells@.to_multiset().count(cell)
            } else {
                old(known)@[session.0].cells@.to_multiset().count(cell)
            },
        result is Ok && update.base_revision is None ==> result->Ok_0.cells@ == update.cells@,
{
    if update.base_revision.is_none() {
        match TerminalSnapshot::from_update(update) {
            Err(error) => Err(RefreshError::Snapshot(error)),
            Ok(snapshot) => {
                let copy = snapshot.clone();
                known.insert(session.0, snapshot);
                Ok(copy)
            },
        }
    } else {
        match known.remove(session.0) {
            None => {
                proof {
                    assert(known@ =~= old(known)@);
                }
                Err(RefreshError::NoBase(session))
            },
            Some(mut snapshot) => {
                let result = snapshot.apply_update(update);
                let copy = snapshot.clone();
                known.insert(session.0, snapshot);
                proof {
                    assert(known@.dom() =~= old(known)@.dom());
                    assert(known@ =~= old(known)@.insert(session.0, snapshot));
                }
                match result {
                    Err(error) => Err(RefreshError::Snapshot(error)),
                    Ok(()) => Ok(copy),
                }
            },
        }
    }
}

/// A rendered screen is told as it is: each cell with its text, its width and its
/// colors at its place, and the grid, the cursor and the title with it. It builds on
/// what was told before unless it is whole.
pub proof fn law_rendered_screens_are_told(
    snapshot: Snapshot,
    base_revision: Option<u64>,
    revision: u64,
    lifecycle: LifecycleView,
    active_work: bool,
    agent_program: Option<AgentProgram>,
    index: int,
)
    requires
        0 <= index < snapshot.cells@.len(),
    ensures
        ({
            let update = rendered_update(
                snapshot,
                base_revision,
                revision,
                lifecycle,
                active_work,
                agent_program,
            );
            let cell = snapshot.cells@[index];
            let told = update.cells[index];
            &&& update.cells.len() == snapshot.cells@.len()
            &&& (told.x, told.y, told.width) == (cell.x, cell.y, cell.width)
            &&& told.text == cell.text@
            &&& told.fg == cell.fg@
            &&& told.bg == cell.bg@
            &&& told.has_explicit_bg == cell.has_explicit_bg
            &&& (update.cols, update.rows) == (snapshot.cols, snapshot.rows)
            &&& update.cursor == snapshot.cursor
            &&& update.dirty_rows == snapshot.dirty_rows@
            &&& update.default_fg == snapshot.default_fg@
            &&& update.default_bg == snapshot.default_bg@
            &&& snapshot.full ==> update.base_revision is None
            &&& !snapshot.full ==> update.base_revision == base_revision
            &&& update.revision == revision
            &&& update.lifecycle == lifecycle
            &&& update.active_work == active_work
            &&& snapshot.title is None <==> update.title is None
            &&& snapshot.title matches Some(title) ==> update.title->0 == title@
        }),
{
}

/// The program that runs in a terminal is told with its screen, and waits for the
/// user where the screen asks, in whatever case, for confirmation, or whether to
/// proceed, or whether to run something.
pub proof fn law_programs_are_told_with_their_screens(
    snapshot: Snapshot,
    base_revision: Option<u64>,
    revision: u64,
    lifecycle: LifecycleView,
    active_work: bool,
    program: AgentProgram,
    before: Seq<char>,
    after: Seq<char>,
)
    ensures
        ({
            let update = rendered_update(
                snapshot,
                base_revision,
                revision,
                lifecycle,
                active_work,
                Some(program),
            );
            let none = rendered_update(
                snapshot,
                base_revision,
                revision,
                lifecycle,
                active_work,
                None,
            );
            let screen = lowercase(
                grid_chars(snapshot.cells@, snapshot.cols as nat, snapshot.rows as nat),
            );
            &&& none.agent is None
            &&& update.agent is Some
            &&& update.agent->0.program == program
            &&& screen == before + "would you like to run"@ + after ==> update.agent->0.state
                == AgentState::Blocked
            &&& screen == before + "do you want to proceed?"@ + after ==> update.agent->0.state
                == AgentState::Blocked
            &&& snapshot.title is Some && lowercase(snapshot.title->0@) == before
                + "action required"@ + after ==> update.agent->0.state == AgentState::Blocked
        }),
{
    let title = match snapshot.title {
        Some(title) => title@,
        None => ""@,
    };
    let screen = grid_chars(snapshot.cells@, snapshot.cols as nat, snapshot.rows as nat);
    if lowercase(screen) == before + "would you like to run"@ + after {
        law_asking_for_running_blocks(program, title, screen, before, after);
    }
    if lowercase(screen) == before + "do you want to proceed?"@ + after {
        law_asking_for_proceeding_blocks(program, title, screen, before, after);
    }
    if lowercase(title) == before + "action required"@ + after {
        law_titles_that_require_action_block(program, title, screen, before, after);
    }
}

/// A terminal without a screen is told as a blank one, whole and valid, with its
/// revision and what became of it.
pub proof fn law_blank_screens_are_valid(revision: u64, lifecycle: LifecycleView)
    ensures
        ({
            let update = blank_update(revision, lifecycle);
            &&& update.full_objection() is None
            &&& update.revision == revision
            &&& update.lifecycle == lifecycle
            &&& (update.cols, update.rows) == (80u16, 24u16)
            &&& update.cells.len() == 0
            &&& update.cursor is None && update.title is None && update.agent is None
            &&& !update.active_work
        }),
{
    let update = blank_update(revision, lifecycle);
    assert forall|row: u16| row < update.rows implies #[trigger] update.dirty_rows.contains(
        row,
    ) by {
        assert(update.dirty_rows[row as int] == row);
    }
    crate::terminal::law_fitting_updates_are_taken(
        true,
        update.cols,
        update.rows,
        update.cursor,
        update.dirty_rows,
        update.cells,
    );
}

/// An update that builds on another needs a terminal that is known, at the revision
/// that it builds on and of the same size; one that is whole needs nothing but to be
/// valid.
pub proof fn law_updates_need_what_they_build_on(
    known: Map<u64, TerminalSnapshot>,
    session: TerminalSessionId,
    update: TerminalUpdateView,
)
    ensures
        ({
            let terminal = known[session.0];
            let objection = refresh_objection(known, session, update);
            let fits = update_objection(
                update.base_revision is None,
                update.cols,
                update.rows,
                update.cursor,
                update.dirty_rows,
                update.cells,
            ) is None;
            &&& update.base_revision is None ==> (objection is None <==> fits)
            &&& update.base_revision is Some ==> (objection is None <==> {
                &&& known.contains_key(session.0)
                &&& fits
                &&& update.base_revision == Some(terminal.revision)
                &&& (update.cols, update.rows) == (terminal.cols, terminal.rows)
            })
            &&& update.base_revision is Some && !known.contains_key(session.0) ==> objection
                == Some(RefreshError::NoBase(session))
        }),
{
}

} // verus!
