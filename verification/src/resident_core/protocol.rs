//! The messages between a Resident Core and its clients.

use crate::core_model::{
    CommandView, CoreCommand, CoreModelError, CoreSnapshot, CreatedResource, HierarchyView,
    TerminalSessionId,
};
use crate::sequences::views;
use crate::terminal::{
    check_update, update_objection, CellView, LifecycleView, TerminalCell, TerminalLifecycle,
    TerminalSize, UpdateError,
};
use vstd::prelude::*;
use vstd::string::*;

verus! {

/// The revision of the protocol that both sides must speak.
pub const PROTOCOL_VERSION: u16 = 8;

#[derive(Clone, Copy, Debug, PartialEq, Eq, Hash, PartialOrd, Ord, Structural)]
pub struct UiClientId(pub u64);

impl UiClientId {
    pub fn as_u64(self) -> (value: u64)
        ensures
            value == self.0,
    {
        self.0
    }
}

/// Who may control a terminal session, and since which change of hands.
#[derive(Clone, Copy, Debug, PartialEq, Eq, Structural)]
pub struct ControlLease {
    pub terminal_session_id: TerminalSessionId,
    pub generation: u64,
    pub controller: Option<UiClientId>,
}

impl View for ControlLease {
    type V = ControlLease;

    open spec fn view(&self) -> ControlLease {
        *self
    }
}

/// Why a request that needs control was denied.
#[derive(Clone, Copy, Debug, PartialEq, Eq, Structural)]
pub enum ControlLeaseDenial {
    HeldByOther,
    StaleGeneration,
    TargetUnavailable,
    NoController,
}

#[derive(Clone, Copy, Debug, PartialEq, Eq, Structural)]
pub struct TerminalChange {
    pub sequence: u64,
    pub terminal_session_id: TerminalSessionId,
    pub terminal_revision: u64,
}

#[derive(Debug, PartialEq, Eq)]
pub struct SemanticEvent {
    pub sequence: u64,
    pub kind: SemanticEventKind,
}

#[derive(Debug, PartialEq, Eq)]
pub enum SemanticEventKind {
    ControlLeaseChanged { lease: ControlLease },
    TerminalLifecycleChanged {
        terminal_session_id: TerminalSessionId,
        lifecycle: TerminalLifecycle,
        terminal_revision: u64,
    },
    HierarchyChanged { revision: u64 },
}

#[verifier::ext_equal]
pub struct SemanticEventView {
    pub sequence: u64,
    pub kind: SemanticEventKindView,
}

#[verifier::ext_equal]
pub enum SemanticEventKindView {
    ControlLeaseChanged { lease: ControlLease },
    TerminalLifecycleChanged {
        terminal_session_id: TerminalSessionId,
        lifecycle: LifecycleView,
        terminal_revision: u64,
    },
    HierarchyChanged { revision: u64 },
}

impl View for SemanticEventKind {
    type V = SemanticEventKindView;

    open spec fn view(&self) -> SemanticEventKindView {
        match *self {
            SemanticEventKind::ControlLeaseChanged { lease } => {
                SemanticEventKindView::ControlLeaseChanged { lease }
            },
            SemanticEventKind::TerminalLifecycleChanged {
                terminal_session_id,
                lifecycle,
                terminal_revision,
            } => SemanticEventKindView::TerminalLifecycleChanged {
                terminal_session_id,
                lifecycle: lifecycle@,
                terminal_revision,
            },
            SemanticEventKind::HierarchyChanged { revision } => {
                SemanticEventKindView::HierarchyChanged { revision }
            },
        }
    }
}

impl Clone for SemanticEventKind {
    fn clone(&self) -> (copy: Self)
        ensures
            copy@ == self@,
    {
        match self {
            SemanticEventKind::ControlLeaseChanged { lease } => {
                SemanticEventKind::ControlLeaseChanged { lease: *lease }
            },
            SemanticEventKind::TerminalLifecycleChanged {
                terminal_session_id,
                lifecycle,
                terminal_revision,
            } => SemanticEventKind::TerminalLifecycleChanged {
                terminal_session_id: *terminal_session_id,
                lifecycle: lifecycle.clone(),
                terminal_revision: *terminal_revision,
            },
            SemanticEventKind::HierarchyChanged { revision } => {
                SemanticEventKind::HierarchyChanged { revision: *revision }
            },
        }
    }
}

impl View for SemanticEvent {
    type V = SemanticEventView;

    open spec fn view(&self) -> SemanticEventView {
        SemanticEventView { sequence: self.sequence, kind: self.kind@ }
    }
}

impl Clone for SemanticEvent {
    fn clone(&self) -> (copy: Self)
        ensures
            copy@ == self@,
    {
        SemanticEvent { sequence: self.sequence, kind: self.kind.clone() }
    }
}

/// What an accepted command is reported with.
#[derive(Debug, PartialEq, Eq)]
pub struct CoreCommandOutcome {
    pub revision: u64,
    pub snapshot: CoreSnapshot,
    pub created: CreatedResource,
    pub control_leases: Vec<ControlLease>,
}

#[verifier::ext_equal]
pub struct OutcomeView {
    pub revision: u64,
    pub snapshot: HierarchyView,
    pub created: CreatedResource,
    pub control_leases: Seq<ControlLease>,
}

impl View for CoreCommandOutcome {
    type V = OutcomeView;

    open spec fn view(&self) -> OutcomeView {
        OutcomeView {
            revision: self.revision,
            snapshot: self.snapshot@,
            created: self.created,
            control_leases: self.control_leases@,
        }
    }
}

impl Clone for CoreCommandOutcome {
    fn clone(&self) -> (copy: Self)
        ensures
            copy@ == self@,
    {
        let control_leases = self.control_leases.clone();
        proof {
            assert(control_leases@ =~= self.control_leases@);
        }
        CoreCommandOutcome {
            revision: self.revision,
            snapshot: self.snapshot.clone(),
            created: self.created,
            control_leases,
        }
    }
}

/// The rows of a terminal that changed since `base_revision`, or all of them.
#[derive(Debug, PartialEq, Eq)]
pub struct TerminalUpdate {
    pub base_revision: Option<u64>,
    pub revision: u64,
    pub lifecycle: TerminalLifecycle,
    pub cols: u16,
    pub rows: u16,
    pub cursor: Option<(u16, u16)>,
    pub default_fg: [u8; 3],
    pub default_bg: [u8; 3],
    pub dirty_rows: Vec<u16>,
    pub cells: Vec<TerminalCell>,
}

#[verifier::ext_equal]
pub struct UpdateView {
    pub base_revision: Option<u64>,
    pub revision: u64,
    pub lifecycle: LifecycleView,
    pub cols: u16,
    pub rows: u16,
    pub cursor: Option<(u16, u16)>,
    pub default_fg: Seq<u8>,
    pub default_bg: Seq<u8>,
    pub dirty_rows: Seq<u16>,
    pub cells: Seq<CellView>,
}

impl UpdateView {
    /// The first objection to the update.
    pub open spec fn objection(self) -> Option<UpdateError> {
        update_objection(
            self.base_revision is None,
            self.cols,
            self.rows,
            self.cursor,
            self.dirty_rows,
            self.cells,
        )
    }
}

impl View for TerminalUpdate {
    type V = UpdateView;

    open spec fn view(&self) -> UpdateView {
        UpdateView {
            base_revision: self.base_revision,
            revision: self.revision,
            lifecycle: self.lifecycle@,
            cols: self.cols,
            rows: self.rows,
            cursor: self.cursor,
            default_fg: self.default_fg@,
            default_bg: self.default_bg@,
            dirty_rows: self.dirty_rows@,
            cells: views(self.cells@),
        }
    }
}

impl Clone for TerminalUpdate {
    fn clone(&self) -> (copy: Self)
        ensures
            copy@ == self@,
    {
        let cells = self.cells.clone();
        let dirty_rows = self.dirty_rows.clone();
        proof {
            assert(views(cells@) =~= views(self.cells@));
            assert(dirty_rows@ =~= self.dirty_rows@);
        }
        TerminalUpdate {
            base_revision: self.base_revision,
            revision: self.revision,
            lifecycle: self.lifecycle.clone(),
            cols: self.cols,
            rows: self.rows,
            cursor: self.cursor,
            default_fg: self.default_fg,
            default_bg: self.default_bg,
            dirty_rows,
            cells,
        }
    }
}

/// A blank terminal of 80 by 24 cells.
pub open spec fn blank_screen(revision: u64, lifecycle: LifecycleView) -> UpdateView {
    UpdateView {
        base_revision: None,
        revision,
        lifecycle,
        cols: 80,
        rows: 24,
        cursor: None,
        default_fg: seq![0xd8, 0xde, 0xe9],
        default_bg: seq![0x0b, 0x0e, 0x13],
        dirty_rows: Seq::new(24, |row: int| row as u16),
        cells: Seq::empty(),
    }
}

impl TerminalUpdate {
    pub fn validate(&self) -> (result: Result<(), UpdateError>)
        ensures
            match self@.objection() {
                None => result is Ok,
                Some(error) => result == Err::<(), UpdateError>(error),
            },
    {
        check_update(
            self.base_revision.is_none(),
            self.cols,
            self.rows,
            self.cursor,
            &self.dirty_rows,
            &self.cells,
        )
    }

    /// A blank terminal of 80 by 24 cells.
    pub fn empty(revision: u64, lifecycle: TerminalLifecycle) -> (update: Self)
        ensures
            update@ == blank_screen(revision, lifecycle@),
            update@.objection() is None,
    {
        let mut dirty_rows: Vec<u16> = Vec::new();
        let mut row: u16 = 0;
        while row < 24
            invariant
                row <= 24,
                dirty_rows@ == Seq::new(row as nat, |row: int| row as u16),
            decreases 24 - row,
        {
            dirty_rows.push(row);
            row += 1;
            proof {
                assert(dirty_rows@ =~= Seq::new(row as nat, |row: int| row as u16));
            }
        }
        let update = TerminalUpdate {
            base_revision: None,
            revision,
            lifecycle,
            cols: 80,
            rows: 24,
            cursor: None,
            default_fg: [0xd8, 0xde, 0xe9],
            default_bg: [0x0b, 0x0e, 0x13],
            dirty_rows,
            cells: Vec::new(),
        };
        proof {
            assert(update.default_fg@ =~= seq![0xd8u8, 0xde, 0xe9]);
            assert(update.default_bg@ =~= seq![0x0bu8, 0x0e, 0x13]);
            assert(views(update.cells@) =~= Seq::empty());
        }
        update
    }
}

/// What a client asks of the Resident Core.
#[derive(Debug, PartialEq, Eq)]
pub enum Request {
    Hello { version: u16, nonce: [u8; 32] },
    Input { terminal_session_id: TerminalSessionId, lease_generation: u64, bytes: Vec<u8> },
    Paste { terminal_session_id: TerminalSessionId, lease_generation: u64, bytes: Vec<u8> },
    Resize { terminal_session_id: TerminalSessionId, lease_generation: u64, size: TerminalSize },
    Snapshot { terminal_session_id: TerminalSessionId, since: Option<u64> },
    CoreSnapshot,
    ApplyCoreCommand { expected_revision: u64, command: CoreCommand },
    ControlLease { terminal_session_id: TerminalSessionId },
    TransferControl {
        terminal_session_id: TerminalSessionId,
        lease_generation: u64,
        target: UiClientId,
    },
    AcquireControl { terminal_session_id: TerminalSessionId, lease_generation: u64 },
    Detach,
    StopResidentCore,
}

#[verifier::ext_equal]
pub enum RequestView {
    Hello { version: u16, nonce: Seq<u8> },
    Input { terminal_session_id: TerminalSessionId, lease_generation: u64, bytes: Seq<u8> },
    Paste { terminal_session_id: TerminalSessionId, lease_generation: u64, bytes: Seq<u8> },
    Resize { terminal_session_id: TerminalSessionId, lease_generation: u64, size: TerminalSize },
    Snapshot { terminal_session_id: TerminalSessionId, since: Option<u64> },
    CoreSnapshot,
    ApplyCoreCommand { expected_revision: u64, command: CommandView },
    ControlLease { terminal_session_id: TerminalSessionId },
    TransferControl {
        terminal_session_id: TerminalSessionId,
        lease_generation: u64,
        target: UiClientId,
    },
    AcquireControl { terminal_session_id: TerminalSessionId, lease_generation: u64 },
    Detach,
    StopResidentCore,
}

impl View for Request {
    type V = RequestView;

    open spec fn view(&self) -> RequestView {
        match *self {
            Request::Hello { version, nonce } => RequestView::Hello { version, nonce: nonce@ },
            Request::Input { terminal_session_id, lease_generation, bytes } => {
                RequestView::Input { terminal_session_id, lease_generation, bytes: bytes@ }
            },
            Request::Paste { terminal_session_id, lease_generation, bytes } => {
                RequestView::Paste { terminal_session_id, lease_generation, bytes: bytes@ }
            },
            Request::Resize { terminal_session_id, lease_generation, size } => {
                RequestView::Resize { terminal_session_id, lease_generation, size }
            },
            Request::Snapshot { terminal_session_id, since } => {
                RequestView::Snapshot { terminal_session_id, since }
            },
            Request::CoreSnapshot => RequestView::CoreSnapshot,
            Request::ApplyCoreCommand { expected_revision, command } => {
                RequestView::ApplyCoreCommand { expected_revision, command: command@ }
            },
            Request::ControlLease { terminal_session_id } => {
                RequestView::ControlLease { terminal_session_id }
            },
            Request::TransferControl { terminal_session_id, lease_generation, target } => {
                RequestView::TransferControl { terminal_session_id, lease_generation, target }
            },
            Request::AcquireControl { terminal_session_id, lease_generation } => {
                RequestView::AcquireControl { terminal_session_id, lease_generation }
            },
            Request::Detach => RequestView::Detach,
            Request::StopResidentCore => RequestView::StopResidentCore,
        }
    }
}

/// What the Resident Core tells a client.
#[derive(Debug, PartialEq, Eq)]
pub enum Response {
    Ready {
        version: u16,
        proof_bytes: [u8; 32],
        client_id: UiClientId,
        snapshot: CoreSnapshot,
        leases: Vec<ControlLease>,
        semantic_sequence: u64,
    },
    Ack,
    Snapshot(Option<TerminalUpdate>),
    CoreSnapshot(CoreSnapshot),
    CoreCommandAccepted(CoreCommandOutcome),
    CoreCommandRejected(CoreModelError),
    TerminalChanged(TerminalChange),
    SemanticEvent(SemanticEvent),
    ResnapshotRequired,
    ControlLease(ControlLease),
    ControlLeaseDenied { reason: ControlLeaseDenial, lease: ControlLease },
    Error(String),
}

#[verifier::ext_equal]
pub enum ResponseView {
    Ready {
        version: u16,
        proof_bytes: Seq<u8>,
        client_id: UiClientId,
        snapshot: HierarchyView,
        leases: Seq<ControlLease>,
        semantic_sequence: u64,
    },
    Ack,
    Snapshot(Option<UpdateView>),
    CoreSnapshot(HierarchyView),
    CoreCommandAccepted(OutcomeView),
    CoreCommandRejected(CoreModelError),
    TerminalChanged(TerminalChange),
    SemanticEvent(SemanticEventView),
    ResnapshotRequired,
    ControlLease(ControlLease),
    ControlLeaseDenied { reason: ControlLeaseDenial, lease: ControlLease },
    Error(Seq<char>),
}

impl View for Response {
    type V = ResponseView;

    open spec fn view(&self) -> ResponseView {
        match *self {
            Response::Ready {
                version,
                proof_bytes,
                client_id,
                snapshot,
                leases,
                semantic_sequence,
            } => ResponseView::Ready {
                version,
                proof_bytes: proof_bytes@,
                client_id,
                snapshot: snapshot@,
                leases: leases@,
                semantic_sequence,
            },
            Response::Ack => ResponseView::Ack,
            Response::Snapshot(Some(update)) => ResponseView::Snapshot(Some(update@)),
            Response::Snapshot(None) => ResponseView::Snapshot(None),
            Response::CoreSnapshot(snapshot) => ResponseView::CoreSnapshot(snapshot@),
            Response::CoreCommandAccepted(outcome) => ResponseView::CoreCommandAccepted(outcome@),
            Response::CoreCommandRejected(error) => ResponseView::CoreCommandRejected(error),
            Response::TerminalChanged(change) => ResponseView::TerminalChanged(change),
            Response::SemanticEvent(event) => ResponseView::SemanticEvent(event@),
            Response::ResnapshotRequired => ResponseView::ResnapshotRequired,
            Response::ControlLease(lease) => ResponseView::ControlLease(lease),
            Response::ControlLeaseDenied { reason, lease } => {
                ResponseView::ControlLeaseDenied { reason, lease }
            },
            Response::Error(error) => ResponseView::Error(error@),
        }
    }
}

} // verus!
