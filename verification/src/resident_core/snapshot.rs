//! What a client knows of a terminal.

use super::protocol::{TerminalUpdate, UpdateView};
use crate::ghostty::{into_terminal_cells, shown_cells, Snapshot};
use crate::grid::{grid_chars, grid_text};
use crate::table::Table;
use crate::core_model::TerminalSessionId;
use crate::terminal::{
    debug_number, in_grid_order, lemma_rows_replaced, outside_rows, put_debug_number, replace_rows,
    update_objection, SnapshotError, TerminalCell, TerminalLifecycle,
};
use crate::text::{decimal, decimal_chars};
use vstd::prelude::*;
use vstd::string::*;

verus! {

/// A terminal at one revision.
#[derive(Debug, PartialEq, Eq)]
pub struct TerminalSnapshot {
    pub revision: u64,
    pub lifecycle: TerminalLifecycle,
    pub cols: u16,
    pub rows: u16,
    pub cursor: Option<(u16, u16)>,
    pub default_fg: [u8; 3],
    pub default_bg: [u8; 3],
    pub cells: Vec<TerminalCell>,
}

#[verifier::ext_equal]
pub struct TerminalSnapshotView {
    pub revision: u64,
    pub lifecycle: TerminalLifecycle,
    pub cols: u16,
    pub rows: u16,
    pub cursor: Option<(u16, u16)>,
    pub default_fg: [u8; 3],
    pub default_bg: [u8; 3],
    pub cells: Seq<TerminalCell>,
}

impl View for TerminalSnapshot {
    type V = TerminalSnapshotView;

    open spec fn view(&self) -> TerminalSnapshotView {
        TerminalSnapshotView {
            revision: self.revision,
            lifecycle: self.lifecycle,
            cols: self.cols,
            rows: self.rows,
            cursor: self.cursor,
            default_fg: self.default_fg,
            default_bg: self.default_bg,
            cells: self.cells@,
        }
    }
}

impl Clone for TerminalSnapshot {
    fn clone(&self) -> (copy: Self)
        ensures
            copy@ == self@,
    {
        let cells = self.cells.clone();
        proof {
            assert(cells@ =~= self.cells@);
        }
        TerminalSnapshot {
            revision: self.revision,
            lifecycle: self.lifecycle.clone(),
            cols: self.cols,
            rows: self.rows,
            cursor: self.cursor,
            default_fg: self.default_fg,
            default_bg: self.default_bg,
            cells,
        }
    }
}

/// The message for an error in what the Resident Core sent.
pub open spec fn snapshot_message(error: SnapshotError) -> Seq<char> {
    match error {
        SnapshotError::DeltaWithoutBase => "Resident Core sent a delta without a base snapshot"@,
        SnapshotError::Invalid(error) => error.spec_message(),
        SnapshotError::RevisionGap { local, base } => "Resident Core terminal revision gap: local "@
            + decimal_chars(local as nat) + ", update base "@ + debug_number(base),
        SnapshotError::ChangedGeometry => "Resident Core sent changed geometry in a row delta"@,
    }
}

pub fn snapshot_error_message(error: SnapshotError) -> (message: String)
    ensures
        message@ == snapshot_message(error),
{
    match error {
        SnapshotError::DeltaWithoutBase => {
            "Resident Core sent a delta without a base snapshot".to_owned()
        },
        SnapshotError::Invalid(error) => error.message(),
        SnapshotError::RevisionGap { local, base } => {
            let mut message = "Resident Core terminal revision gap: local ".to_owned();
            message.append(decimal(local).as_str());
            message.append(", update base ");
            put_debug_number(&mut message, base);
            message
        },
        SnapshotError::ChangedGeometry => {
            "Resident Core sent changed geometry in a row delta".to_owned()
        },
    }
}

/// The objection to a full update.
pub open spec fn full_objection(update: UpdateView) -> Option<SnapshotError> {
    if update.base_revision is Some {
        Some(SnapshotError::DeltaWithoutBase)
    } else {
        match update.objection() {
            Some(error) => Some(SnapshotError::Invalid(error)),
            None => None,
        }
    }
}

/// The snapshot that a full update gives.
pub open spec fn full_snapshot(update: TerminalUpdate) -> TerminalSnapshotView {
    TerminalSnapshotView {
        revision: update.revision,
        lifecycle: update.lifecycle,
        cols: update.cols,
        rows: update.rows,
        cursor: update.cursor,
        default_fg: update.default_fg,
        default_bg: update.default_bg,
        cells: update.cells@,
    }
}

impl TerminalSnapshotView {
    /// The objection to an update of this snapshot.
    pub open spec fn delta_objection(self, update: UpdateView) -> Option<SnapshotError> {
        match update.objection() {
            Some(error) => Some(SnapshotError::Invalid(error)),
            None => if update.base_revision != Some(self.revision) {
                Some(
                    SnapshotError::RevisionGap { local: self.revision, base: update.base_revision },
                )
            } else if (update.cols, update.rows) != (self.cols, self.rows) {
                Some(SnapshotError::ChangedGeometry)
            } else {
                None
            },
        }
    }

    /// Whether `after` is this snapshot with the rows of an update replaced.
    pub open spec fn updates_to(self, update: TerminalUpdate, after: TerminalSnapshotView) -> bool {
        &&& after == TerminalSnapshotView {
            revision: update.revision,
            lifecycle: update.lifecycle,
            cursor: update.cursor,
            default_fg: update.default_fg,
            default_bg: update.default_bg,
            cells: after.cells,
            ..self
        }
        &&& in_grid_order(after.cells)
        &&& after.cells.to_multiset() == self.cells.filter(
            outside_rows(update.dirty_rows@),
        ).to_multiset().add(update.cells@.to_multiset())
    }
}

/// A row delta is taken exactly where it builds on the revision that is known,
/// keeps the size and fits; a full update wherever it fits, whatever was known.
pub proof fn law_deltas_build_on_what_is_known(before: TerminalSnapshotView, update: UpdateView)
    ensures
        before.delta_objection(update) is None <==> {
            &&& update.base_revision == Some(before.revision)
            &&& update.cols == before.cols && update.rows == before.rows
            &&& update_objection(
                false,
                update.cols,
                update.rows,
                update.cursor,
                update.dirty_rows,
                update.cells,
            ) is None
        },
        full_objection(update) is None <==> {
            &&& update.base_revision is None
            &&& update_objection(
                true,
                update.cols,
                update.rows,
                update.cursor,
                update.dirty_rows,
                update.cells,
            ) is None
        },
{
}

/// After a row delta was taken the rows that it names hold exactly the cells that
/// it brings, and every other row the cells that it had; all of them stand row
/// by row. The size stays, and the rest is what the update says.
pub proof fn law_deltas_replace_their_rows(
    before: TerminalSnapshotView,
    update: TerminalUpdate,
    after: TerminalSnapshotView,
)
    requires
        before.delta_objection(update@) is None,
        before.updates_to(update, after),
    ensures
        forall|cell: TerminalCell| #[trigger]
            after.cells.to_multiset().count(cell) == if update.dirty_rows@.contains(cell.y) {
                update.cells@.to_multiset().count(cell)
            } else {
                before.cells.to_multiset().count(cell)
            },
        forall|i: int, j: int|
            0 <= i < j < after.cells.len() ==> {
                let left = #[trigger] after.cells[i];
                let right = #[trigger] after.cells[j];
                left.y < right.y || (left.y == right.y && left.x <= right.x)
            },
        after.cols == before.cols,
        after.rows == before.rows,
        after.revision == update.revision,
        after.lifecycle == update.lifecycle,
        after.cursor == update.cursor,
        after.default_fg == update.default_fg,
        after.default_bg == update.default_bg,
{
    lemma_rows_replaced(
        before.cells,
        update.dirty_rows@,
        update.cells@,
        update.cols,
        update.rows,
        after.cells,
    );
}

/// After a full update the terminal is what the update says, cell for cell.
pub proof fn law_full_updates_are_shown_whole(update: TerminalUpdate)
    ensures
        ({
            let after = full_snapshot(update);
            &&& after.cells == update.cells@
            &&& after.cols == update.cols && after.rows == update.rows
            &&& after.revision == update.revision
            &&& after.lifecycle == update.lifecycle
            &&& after.cursor == update.cursor
            &&& after.default_fg == update.default_fg
            &&& after.default_bg == update.default_bg
        }),
{
}

impl TerminalSnapshot {
    /// The text on the terminal, row by row.
    pub fn text(&self) -> (text: String)
        ensures
            text@ == grid_chars(self.cells@, self.cols as nat, self.rows as nat),
    {
        grid_text(&self.cells, self.cols, self.rows)
    }

    pub fn from_update(update: TerminalUpdate) -> (snapshot: Result<Self, SnapshotError>)
        ensures
            match full_objection(update@) {
                Some(error) => snapshot is Err && snapshot->Err_0 == error,
                None => snapshot is Ok && snapshot->Ok_0@ == full_snapshot(update),
            },
    {
        if update.base_revision.is_some() {
            return Err(SnapshotError::DeltaWithoutBase);
        }
        if let Err(error) = update.validate() {
            return Err(SnapshotError::Invalid(error));
        }
        Ok(
            TerminalSnapshot {
                revision: update.revision,
                lifecycle: update.lifecycle,
                cols: update.cols,
                rows: update.rows,
                cursor: update.cursor,
                default_fg: update.default_fg,
                default_bg: update.default_bg,
                cells: update.cells,
            },
        )
    }

    pub fn apply_update(&mut self, update: TerminalUpdate) -> (result: Result<(), SnapshotError>)
        ensures
            match old(self)@.delta_objection(update@) {
                Some(error) => result is Err && result->Err_0 == error && final(self)@ == old(
                    self,
                )@,
                None => result is Ok && old(self)@.updates_to(update, final(self)@),
            },
            old(self)@.delta_objection(update@) is None ==> {
                &&& forall|cell: TerminalCell| #[trigger]
                    final(self).cells@.to_multiset().count(cell)
                        == if update.dirty_rows@.contains(cell.y) {
                        update.cells@.to_multiset().count(cell)
                    } else {
                        old(self).cells@.to_multiset().count(cell)
                    }
                &&& forall|i: int, j: int|
                    0 <= i < j < final(self).cells@.len() ==> {
                        let left = #[trigger] final(self).cells@[i];
                        let right = #[trigger] final(self).cells@[j];
                        left.y < right.y || (left.y == right.y && left.x <= right.x)
                    }
            },
    {
        if let Err(error) = update.validate() {
            return Err(SnapshotError::Invalid(error));
        }
        let follows = match update.base_revision {
            Some(base) => base == self.revision,
            None => false,
        };
        if !follows {
            return Err(
                SnapshotError::RevisionGap { local: self.revision, base: update.base_revision },
            );
        }
        if update.cols != self.cols || update.rows != self.rows {
            return Err(SnapshotError::ChangedGeometry);
        }
        replace_rows(&mut self.cells, &update.dirty_rows, self.rows, update.cells);
        proof {
            lemma_rows_replaced(
                old(self).cells@,
                update.dirty_rows@,
                update.cells@,
                update.cols,
                update.rows,
                self.cells@,
            );
        }
        self.revision = update.revision;
        self.lifecycle = update.lifecycle;
        self.cursor = update.cursor;
        self.default_fg = update.default_fg;
        self.default_bg = update.default_bg;
        Ok(())
    }
}

impl TerminalUpdate {
    /// The update that a snapshot of the emulator gives.
    pub fn from_terminal(
        snapshot: Snapshot,
        base_revision: Option<u64>,
        revision: u64,
        lifecycle: TerminalLifecycle,
    ) -> (update: Self)
        ensures
            update@ == (UpdateView {
                base_revision: if snapshot.full {
                    None
                } else {
                    base_revision
                },
                revision,
                lifecycle: lifecycle@,
                cols: snapshot.cols,
                rows: snapshot.rows,
                cursor: snapshot.cursor,
                default_fg: snapshot.default_fg@,
                default_bg: snapshot.default_bg@,
                dirty_rows: snapshot.dirty_rows@,
                cells: shown_cells(snapshot.cells@),
            }),
    {
        TerminalUpdate {
            base_revision: if snapshot.full {
                None
            } else {
                base_revision
            },
            revision,
            lifecycle,
            cols: snapshot.cols,
            rows: snapshot.rows,
            cursor: snapshot.cursor,
            default_fg: snapshot.default_fg,
            default_bg: snapshot.default_bg,
            dirty_rows: snapshot.dirty_rows,
            cells: into_terminal_cells(snapshot.cells),
        }
    }
}

/// Why an update is not accepted.
#[derive(Clone, Copy, Debug, PartialEq, Eq, Structural)]
pub enum AcceptError {
    DeltaBeforeFull,
    Snapshot(SnapshotError),
}

impl AcceptError {
    pub open spec fn spec_message(self) -> Seq<char> {
        match self {
            AcceptError::DeltaBeforeFull => "Resident Core sent a delta before a full snapshot"@,
            AcceptError::Snapshot(error) => snapshot_message(error),
        }
    }

    pub fn message(self) -> (message: String)
        ensures
            message@ == self.spec_message(),
    {
        match self {
            AcceptError::DeltaBeforeFull => {
                "Resident Core sent a delta before a full snapshot".to_owned()
            },
            AcceptError::Snapshot(error) => snapshot_error_message(error),
        }
    }
}

/// The objection to an update of a terminal of which `known` is known.
pub open spec fn accept_objection(
    known: Map<u64, TerminalSnapshot>,
    session: TerminalSessionId,
    update: UpdateView,
) -> Option<AcceptError> {
    let objection = if update.base_revision is None {
        full_objection(update)
    } else if known.contains_key(session.0) {
        known[session.0]@.delta_objection(update)
    } else {
        None
    };
    if update.base_revision is Some && !known.contains_key(session.0) {
        Some(AcceptError::DeltaBeforeFull)
    } else {
        match objection {
            Some(error) => Some(AcceptError::Snapshot(error)),
            None => None,
        }
    }
}

/// An update is taken into what is known where it is whole and fits, or builds on the
/// revision that is known of its terminal, keeps the size and fits.
pub proof fn law_updates_are_taken_into_what_is_known(
    known: Map<u64, TerminalSnapshot>,
    session: TerminalSessionId,
    update: UpdateView,
)
    ensures
        accept_objection(known, session, update) is None <==> {
            &&& update_objection(
                update.base_revision is None,
                update.cols,
                update.rows,
                update.cursor,
                update.dirty_rows,
                update.cells,
            ) is None
            &&& update.base_revision is Some ==> {
                &&& known.contains_key(session.0)
                &&& update.base_revision == Some(known[session.0]@.revision)
                &&& update.cols == known[session.0]@.cols
                &&& update.rows == known[session.0]@.rows
            }
        },
        accept_objection(known, session, update) == Some(AcceptError::DeltaBeforeFull)
            <==> update.base_revision is Some && !known.contains_key(session.0),
{
}

/// Takes an update into what is known of a terminal.
pub fn accept_update(
    known: &mut Table<TerminalSnapshot>,
    session: TerminalSessionId,
    update: TerminalUpdate,
) -> (result: Result<TerminalSnapshot, AcceptError>)
    ensures
        match accept_objection(old(known)@, session, update@) {
            Some(error) => {
                &&& result is Err && result->Err_0 == error
                &&& final(known)@.dom() == old(known)@.dom()
                &&& forall|id: u64| #[trigger]
                    old(known)@.contains_key(id) ==> final(known)@[id]@ == old(known)@[id]@
            },
            None => {
                &&& result is Ok
                &&& final(known)@.contains_key(session.0)
                &&& result->Ok_0@ == final(known)@[session.0]@
                &&& final(known)@ == old(known)@.insert(session.0, final(known)@[session.0])
                &&& if update.base_revision is None {
                    result->Ok_0@ == full_snapshot(update)
                } else {
                    old(known)@[session.0]@.updates_to(update, result->Ok_0@)
                }
            },
        },
        result is Ok ==> {
            &&& final(known)@.contains_key(session.0)
            &&& final(known)@[session.0]@ == result->Ok_0@
        },
        result is Ok && update.base_revision is Some ==> forall|cell: TerminalCell| #[trigger]
            result->Ok_0.cells@.to_multiset().count(cell)
                == if update.dirty_rows@.contains(cell.y) {
                update.cells@.to_multiset().count(cell)
            } else {
                old(known)@[session.0].cells@.to_multiset().count(cell)
            },
        result is Ok && update.base_revision is None ==> result->Ok_0.cells@ == update.cells@,
{
    if update.base_revision.is_none() {
        match TerminalSnapshot::from_update(update) {
            Err(error) => Err(AcceptError::Snapshot(error)),
            Ok(snapshot) => {
                let copy = snapshot.clone();
                known.insert(session.0, snapshot);
                Ok(copy)
            },
        }
    } else {
        match known.remove(session.0) {
            None => {
                proof {
                    assert(known@ =~= old(known)@);
                }
                Err(AcceptError::DeltaBeforeFull)
            },
            Some(mut snapshot) => {
                let result = snapshot.apply_update(update);
                let copy = snapshot.clone();
                known.insert(session.0, snapshot);
                proof {
                    assert(known@.dom() =~= old(known)@.dom());
                    assert(known@ =~= old(known)@.insert(session.0, snapshot));
                }
                match result {
                    Err(error) => Err(AcceptError::Snapshot(error)),
                    Ok(()) => Ok(copy),
                }
            },
        }
    }
}

} // verus!
