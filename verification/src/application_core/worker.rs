//! What is asked of the thread that runs the terminals, and its answers.

use super::runtime::{CoreRuntime, RuntimeEvent};
use super::{
    apply_terminal_update, full_view, refresh_objection, CoreCommandOutcome, SemanticEvent,
    SemanticEventKind, TerminalChange, TerminalSnapshot, TerminalUpdate, TerminalView,
};
use crate::core_model::{
    CoreCommand, CoreCommit, CoreModelError, CoreSnapshot, HierarchyView, TerminalSessionId,
};
use crate::table::Table;
use crate::terminal::{TerminalSize, TerminalTheme};
use vstd::prelude::*;
use vstd::string::*;

verus! {

/// What is asked of the thread that runs the terminals.
pub enum WorkerRequest {
    Input { terminal_session_id: TerminalSessionId, bytes: Vec<u8> },
    Paste { terminal_session_id: TerminalSessionId, bytes: Vec<u8> },
    Resize { terminal_session_id: TerminalSessionId, size: TerminalSize },
    SetTerminalTheme { theme: TerminalTheme },
    Snapshot { terminal_session_id: TerminalSessionId, since: Option<u64> },
    CoreSnapshot,
    ApplyCoreCommand { expected_revision: u64, command: CoreCommand },
    Stop,
}

/// What it answers.
pub enum WorkerResponse {
    Ack,
    Snapshot(Option<TerminalUpdate>),
    CoreSnapshot(CoreSnapshot),
    CoreCommandAccepted(CoreCommandOutcome),
    CoreCommandRejected(CoreModelError),
}

/// The change to tell of after a paste or a change of size.
pub fn change_after(
    runtime: &CoreRuntime,
    session: TerminalSessionId,
    result: &Result<bool, String>,
) -> (change: Option<TerminalChange>)
    ensures
        change == if *result is Ok && result->Ok_0 && runtime@.terminals.contains_key(session.0) {
            Some(
                TerminalChange {
                    terminal_session_id: session,
                    terminal_revision: runtime@.terminals[session.0].revision,
                },
            )
        } else {
            None
        },
{
    match result {
        Ok(true) => match runtime.terminal_revision(session) {
            Ok(terminal_revision) => Some(
                TerminalChange { terminal_session_id: session, terminal_revision },
            ),
            Err(_) => None,
        },
        _ => None,
    }
}

/// The answer to a request that changes a terminal.
pub fn change_reply(result: Result<bool, String>) -> (reply: Result<WorkerResponse, String>)
    ensures
        match result {
            Ok(_) => reply == Ok::<WorkerResponse, String>(WorkerResponse::Ack),
            Err(error) => reply == Err::<WorkerResponse, String>(error),
        },
{
    match result {
        Ok(_) => Ok(WorkerResponse::Ack),
        Err(error) => Err(error),
    }
}

/// The answer to a question for a terminal: one that asks what has changed of
/// a terminal that is gone is answered with nothing.
pub fn snapshot_reply(
    result: Result<Option<TerminalUpdate>, String>,
    since: Option<u64>,
    exists_still: bool,
) -> (reply: Result<WorkerResponse, String>)
    ensures
        match result {
            Ok(update) => reply == Ok::<WorkerResponse, String>(WorkerResponse::Snapshot(update)),
            Err(error) => if since is Some && !exists_still {
                reply == Ok::<WorkerResponse, String>(WorkerResponse::Snapshot(None))
            } else {
                reply == Err::<WorkerResponse, String>(error)
            },
        },
{
    match result {
        Ok(update) => Ok(WorkerResponse::Snapshot(update)),
        Err(error) => if since.is_some() && !exists_still {
            Ok(WorkerResponse::Snapshot(None))
        } else {
            Err(error)
        },
    }
}

/// The answer to a command on the hierarchy.
pub fn command_reply(result: Result<CoreCommit, CoreModelError>) -> (reply: WorkerResponse)
    ensures
        match result {
            Ok(commit) => match reply {
                WorkerResponse::CoreCommandAccepted(outcome) => outcome.revision == commit.revision
                    && outcome.snapshot == commit.snapshot && outcome.created == commit.created,
                _ => false,
            },
            Err(error) => reply == WorkerResponse::CoreCommandRejected(error),
        },
{
    match result {
        Ok(commit) => WorkerResponse::CoreCommandAccepted(
            CoreCommandOutcome {
                revision: commit.revision,
                snapshot: commit.snapshot,
                created: commit.created,
            },
        ),
        Err(error) => WorkerResponse::CoreCommandRejected(error),
    }
}

/// How an event is told.
pub enum Publication {
    Change(TerminalChange),
    Event(SemanticEvent),
}

/// How an event is told.
pub fn publication(event: RuntimeEvent) -> (publication: Publication)
    ensures
        match event {
            RuntimeEvent::TerminalChanged { terminal_session_id, terminal_revision } => publication
                == Publication::Change(TerminalChange { terminal_session_id, terminal_revision }),
            RuntimeEvent::TerminalLifecycleChanged {
                terminal_session_id,
                lifecycle,
                terminal_revision,
            } => publication == Publication::Event(
                SemanticEvent {
                    kind: SemanticEventKind::TerminalLifecycleChanged {
                        terminal_session_id,
                        lifecycle,
                        terminal_revision,
                    },
                },
            ),
            RuntimeEvent::PaneClosed { revision, .. } => publication == Publication::Event(
                SemanticEvent { kind: SemanticEventKind::HierarchyChanged { revision } },
            ),
        },
{
    match event {
        RuntimeEvent::TerminalChanged { terminal_session_id, terminal_revision } => {
            Publication::Change(TerminalChange { terminal_session_id, terminal_revision })
        },
        RuntimeEvent::TerminalLifecycleChanged {
            terminal_session_id,
            lifecycle,
            terminal_revision,
        } => Publication::Event(
            SemanticEvent {
                kind: SemanticEventKind::TerminalLifecycleChanged {
                    terminal_session_id,
                    lifecycle,
                    terminal_revision,
                },
            },
        ),
        RuntimeEvent::PaneClosed { revision, .. } => Publication::Event(
            SemanticEvent { kind: SemanticEventKind::HierarchyChanged { revision } },
        ),
    }
}

/// What a window knows of the hierarchy and of its terminals.
pub struct ApplicationCore {
    hierarchy: CoreSnapshot,
    terminal_snapshots: Table<TerminalSnapshot>,
}

#[verifier::ext_equal]
pub struct ApplicationView {
    pub hierarchy: HierarchyView,
    pub terminals: Map<u64, TerminalView>,
}

impl View for ApplicationCore {
    type V = ApplicationView;

    closed spec fn view(&self) -> ApplicationView {
        ApplicationView {
            hierarchy: self.hierarchy@,
            terminals: terminal_views(self.terminal_snapshots@),
        }
    }
}

spec fn terminal_views(terminals: Map<u64, TerminalSnapshot>) -> Map<u64, TerminalView> {
    terminals.map_values(|snapshot: TerminalSnapshot| snapshot@)
}

impl ApplicationView {
    /// The objection to an update of a terminal.
    pub open spec fn objection(
        self,
        session: TerminalSessionId,
        update: TerminalUpdate,
    ) -> Option<super::RefreshError> {
        if update.base_revision is Some && !self.terminals.contains_key(session.0) {
            Some(super::RefreshError::NoBase(session))
        } else {
            let objection = if update.base_revision is None {
                update@.full_objection()
            } else {
                self.terminals[session.0].delta_objection(update@)
            };
            match objection {
                Some(error) => Some(super::RefreshError::Snapshot(error)),
                None => None,
            }
        }
    }

    /// Whether `terminal` is what an update makes of a terminal.
    pub open spec fn updates_terminal(
        self,
        session: TerminalSessionId,
        update: TerminalUpdate,
        terminal: TerminalView,
    ) -> bool {
        if update.base_revision is None {
            terminal == full_view(update)
        } else {
            self.terminals[session.0].updates_to(update, terminal)
        }
    }

    pub open spec fn with_terminal(
        self,
        session: TerminalSessionId,
        terminal: TerminalView,
    ) -> ApplicationView {
        ApplicationView { terminals: self.terminals.insert(session.0, terminal), ..self }
    }
}

impl ApplicationCore {
    /// What is known at the start.
    pub fn new(hierarchy: CoreSnapshot) -> (core: Self)
        ensures
            core@ == (ApplicationView { hierarchy: hierarchy@, terminals: Map::empty() }),
    {
        let core = ApplicationCore { hierarchy, terminal_snapshots: Table::new() };
        proof {
            assert(core@.terminals =~= Map::empty());
        }
        core
    }

    pub fn core_snapshot(&self) -> (snapshot: CoreSnapshot)
        ensures
            snapshot@ == self@.hierarchy,
    {
        self.hierarchy.clone()
    }

    /// The request that applies a command to the hierarchy that is known.
    pub fn command_request(&self, command: CoreCommand) -> (request: WorkerRequest)
        ensures
            request == (WorkerRequest::ApplyCoreCommand {
                expected_revision: self@.hierarchy.revision,
                command,
            }),
    {
        WorkerRequest::ApplyCoreCommand { expected_revision: self.hierarchy.revision, command }
    }

    /// Takes the answer to a question for the hierarchy.
    pub fn accept_hierarchy(&mut self, response: WorkerResponse) -> (result: Result<
        CoreSnapshot,
        String,
    >)
        ensures
            match response {
                WorkerResponse::CoreSnapshot(snapshot) => result is Ok && result->Ok_0@
                    == snapshot@ && final(self)@ == (ApplicationView {
                    hierarchy: snapshot@,
                    ..old(self)@
                }),
                _ => result is Err && result->Err_0@ == "invalid hierarchy snapshot response"@
                    && final(self)@ == old(self)@,
            },
    {
        match response {
            WorkerResponse::CoreSnapshot(snapshot) => {
                self.hierarchy = snapshot.clone();
                Ok(snapshot)
            },
            _ => Err("invalid hierarchy snapshot response".to_owned()),
        }
    }

    /// Takes the answer to a command on the hierarchy.
    pub fn accept_outcome(&mut self, response: WorkerResponse) -> (result: Result<
        CoreCommandOutcome,
        String,
    >)
        ensures
            match response {
                WorkerResponse::CoreCommandAccepted(outcome) => result is Ok && result->Ok_0
                    == outcome && final(self)@ == (ApplicationView {
                    hierarchy: outcome.snapshot@,
                    ..old(self)@
                }),
                WorkerResponse::CoreCommandRejected(error) => result is Err && result->Err_0@
                    == error.spec_message() && final(self)@ == old(self)@,
                _ => result is Err && result->Err_0@ == "invalid hierarchy command response"@
                    && final(self)@ == old(self)@,
            },
    {
        match response {
            WorkerResponse::CoreCommandAccepted(outcome) => {
                self.hierarchy = outcome.snapshot.clone();
                Ok(outcome)
            },
            WorkerResponse::CoreCommandRejected(error) => Err(error.message()),
            _ => Err("invalid hierarchy command response".to_owned()),
        }
    }

    fn accept_update(&mut self, session: TerminalSessionId, update: TerminalUpdate) -> (result:
        Result<TerminalSnapshot, super::RefreshError>)
        ensures
            match old(self)@.objection(session, update) {
                Some(error) => result is Err && result->Err_0 == error && final(self)@ == old(
                    self,
                )@,
                None => result is Ok && old(self)@.updates_terminal(
                    session,
                    update,
                    result->Ok_0@,
                ) && final(self)@ == old(self)@.with_terminal(session, result->Ok_0@),
            },
    {
        let ghost before = self.terminal_snapshots@;
        let result = apply_terminal_update(&mut self.terminal_snapshots, session, update);
        proof {
            let after = self.terminal_snapshots@;
            assert(old(self)@.objection(session, update) == refresh_objection(
                before,
                session,
                update@,
            ));
            if result is Err {
                assert(terminal_views(after) =~= terminal_views(before));
            } else {
                assert(terminal_views(after) =~= terminal_views(before).insert(
                    session.0,
                    result->Ok_0@,
                ));
            }
        }
        result
    }

    /// Takes the answer to a question for a whole terminal.
    pub fn accept_snapshot(&mut self, session: TerminalSessionId, response: WorkerResponse) -> (
    result: Result<TerminalSnapshot, String>)
        ensures
            match response {
                WorkerResponse::Snapshot(Some(update)) => match update@.full_objection() {
                    Some(error) => result is Err && result->Err_0@
                        == super::RefreshError::Snapshot(error).spec_message() && final(self)@
                        == old(self)@,
                    None => result is Ok && result->Ok_0@ == full_view(update) && final(self)@
                        == old(self)@.with_terminal(session, full_view(update)),
                },
                WorkerResponse::Snapshot(None) => result is Err && result->Err_0@
                    == "terminal runtime returned no initial snapshot"@ && final(self)@ == old(
                    self,
                )@,
                _ => result is Err && result->Err_0@ == "invalid terminal snapshot response"@
                    && final(self)@ == old(self)@,
            },
    {
        match response {
            WorkerResponse::Snapshot(Some(update)) => match TerminalSnapshot::from_update(update) {
                Ok(snapshot) => {
                    let copy = snapshot.clone();
                    let ghost before = self@;
                    self.terminal_snapshots.insert(session.0, snapshot);
                    proof {
                        assert(self@.terminals =~= before.terminals.insert(session.0, copy@));
                    }
                    Ok(copy)
                },
                Err(error) => Err(super::RefreshError::Snapshot(error).message()),
            },
            WorkerResponse::Snapshot(None) => Err(
                "terminal runtime returned no initial snapshot".to_owned(),
            ),
            _ => Err("invalid terminal snapshot response".to_owned()),
        }
    }

    /// Takes the answer to a question for what has changed of a terminal.
    pub fn accept_snapshot_since(
        &mut self,
        session: TerminalSessionId,
        response: WorkerResponse,
    ) -> (result: Result<Option<TerminalSnapshot>, String>)
        ensures
            match response {
                WorkerResponse::Snapshot(Some(update)) => match old(self)@.objection(
                    session,
                    update,
                ) {
                    Some(error) => result is Err && result->Err_0@ == error.spec_message()
                        && final(self)@ == old(self)@,
                    None => match result {
                        Ok(Some(snapshot)) => old(self)@.updates_terminal(
                            session,
                            update,
                            snapshot@,
                        ) && final(self)@ == old(self)@.with_terminal(session, snapshot@),
                        _ => false,
                    },
                },
                WorkerResponse::Snapshot(None) => {
                    &&& result is Ok && result->Ok_0 is None
                    &&& final(self)@ == old(self)@
                },
                _ => result is Err && result->Err_0@ == "invalid terminal snapshot response"@
                    && final(self)@ == old(self)@,
            },
    {
        match response {
            WorkerResponse::Snapshot(Some(update)) => match self.accept_update(session, update) {
                Ok(snapshot) => Ok(Some(snapshot)),
                Err(error) => Err(error.message()),
            },
            WorkerResponse::Snapshot(None) => Ok(None),
            _ => Err("invalid terminal snapshot response".to_owned()),
        }
    }
}

/// Takes the answer to a command for a terminal.
pub fn expect_ack(response: WorkerResponse) -> (result: Result<(), String>)
    ensures
        match response {
            WorkerResponse::Ack => result is Ok,
            _ => result is Err && result->Err_0@ == "invalid terminal command response"@,
        },
{
    match response {
        WorkerResponse::Ack => Ok(()),
        _ => Err("invalid terminal command response".to_owned()),
    }
}

} // verus!
