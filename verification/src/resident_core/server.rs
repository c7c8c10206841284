//! What a Resident Core does for its clients.

use super::control::{
    holds_lease, lists_changes, missing_session, missing_session_message, session_set, ControlState,
    ControlView,
};
use super::events::{
    event_views, lease_events, lemma_lease_event_count, next_sequence, number_event,
    number_lease_events, sequence_after,
};
use super::protocol::{
    ControlLease, CoreCommandOutcome, OutcomeView, Request, Response, ResponseView,
    SemanticEvent, SemanticEventKind, SemanticEventKindView, SemanticEventView, TerminalChange,
    TerminalUpdate, UiClientId, PROTOCOL_VERSION,
};
use crate::core_model::{CoreCommand, CoreModelError, CoreSnapshot, TerminalSessionId};
use crate::terminal::TerminalSize;
use crate::text::{decimal, decimal_chars};
use vstd::prelude::*;
use vstd::string::*;

verus! {

/// The most bytes that one input or paste may have.
pub const MAX_INPUT_BYTES: usize = 1048576;

/// What is asked of the thread that runs the terminals.
pub enum WorkerRequest {
    Input { terminal_session_id: TerminalSessionId, bytes: Vec<u8> },
    Paste { terminal_session_id: TerminalSessionId, bytes: Vec<u8> },
    Resize { terminal_session_id: TerminalSessionId, size: TerminalSize },
    Snapshot { terminal_session_id: TerminalSessionId, since: Option<u64> },
    CoreSnapshot,
    ApplyCoreCommand { expected_revision: u64, command: CoreCommand },
    Stop,
}

/// What it answers.
pub enum WorkerResponse {
    Ack,
    Snapshot(Option<TerminalUpdate>),
    CoreSnapshot(CoreSnapshot),
    CoreCommandAccepted(CoreCommandOutcome),
    CoreCommandRejected(CoreModelError),
}

/// What a client is told of an answer.
pub open spec fn told(response: Result<WorkerResponse, String>) -> ResponseView {
    match response {
        Ok(WorkerResponse::Ack) => ResponseView::Ack,
        Ok(WorkerResponse::Snapshot(Some(update))) => ResponseView::Snapshot(Some(update@)),
        Ok(WorkerResponse::Snapshot(None)) => ResponseView::Snapshot(None),
        Ok(WorkerResponse::CoreSnapshot(snapshot)) => ResponseView::CoreSnapshot(snapshot@),
        Ok(WorkerResponse::CoreCommandAccepted(outcome)) => ResponseView::CoreCommandAccepted(
            outcome@,
        ),
        Ok(WorkerResponse::CoreCommandRejected(error)) => ResponseView::CoreCommandRejected(error),
        Err(error) => ResponseView::Error(error@),
    }
}

pub fn worker_response(response: Result<WorkerResponse, String>) -> (result: Response)
    ensures
        result@ == told(response),
{
    match response {
        Ok(WorkerResponse::Ack) => Response::Ack,
        Ok(WorkerResponse::Snapshot(snapshot)) => Response::Snapshot(snapshot),
        Ok(WorkerResponse::CoreSnapshot(snapshot)) => Response::CoreSnapshot(snapshot),
        Ok(WorkerResponse::CoreCommandAccepted(outcome)) => Response::CoreCommandAccepted(outcome),
        Ok(WorkerResponse::CoreCommandRejected(error)) => Response::CoreCommandRejected(error),
        Err(error) => Response::Error(error),
    }
}

/// A client that speaks another protocol, in words.
pub open spec fn mismatch_text(version: u16) -> Seq<char> {
    "Resident Core protocol mismatch: client "@ + decimal_chars(version as nat) + ", core 8"@
}

/// The nonce of a client's first request, or what the client is told.
pub fn greet(first: Option<Request>) -> (result: Result<[u8; 32], Response>)
    ensures
        match first {
            Some(Request::Hello { version, nonce }) => if version == PROTOCOL_VERSION {
                result is Ok && result->Ok_0 == nonce
            } else {
                result is Err && result->Err_0@ == ResponseView::Error(mismatch_text(version))
            },
            _ => result is Err && result->Err_0@ == ResponseView::Error(
                "UI Client must begin with a protocol handshake"@,
            ),
        },
{
    match first {
        Some(Request::Hello { version, nonce }) => {
            if version == PROTOCOL_VERSION {
                return Ok(nonce);
            }
            let mut message = "Resident Core protocol mismatch: client ".to_owned();
            message.append(decimal(version as u64).as_str());
            message.append(", core 8");
            Err(Response::Error(message))
        },
        _ => Err(
            Response::Error("UI Client must begin with a protocol handshake".to_owned()),
        ),
    }
}

/// What is done for a request after the handshake.
pub enum ClientAction {
    Reply(Response),
    /// Hand the request to the terminals if the client has control.
    Controlled {
        terminal_session_id: TerminalSessionId,
        lease_generation: u64,
        request: WorkerRequest,
    },
    Ask(WorkerRequest),
    Hierarchy,
    Apply { expected_revision: u64, command: CoreCommand },
    Lease { terminal_session_id: TerminalSessionId },
    Transfer {
        terminal_session_id: TerminalSessionId,
        lease_generation: u64,
        target: UiClientId,
    },
    Acquire { terminal_session_id: TerminalSessionId, lease_generation: u64 },
    /// Acknowledge and close the connection.
    Detach,
    /// Stop the terminals, answer, and stop.
    Stop,
}

/// What is done for a request after the handshake.
pub fn client_action(request: Request) -> (action: ClientAction)
    ensures
        match request {
            Request::Hello { .. } => action is Reply && action->Reply_0@ == ResponseView::Error(
                "UI Client already completed its handshake"@,
            ),
            Request::Input { terminal_session_id, lease_generation, bytes } => if bytes@.len()
                > MAX_INPUT_BYTES {
                action is Reply && action->Reply_0@ == ResponseView::Error(
                    "terminal input command exceeds 1 MiB"@,
                )
            } else {
                action == (ClientAction::Controlled {
                    terminal_session_id,
                    lease_generation,
                    request: WorkerRequest::Input { terminal_session_id, bytes },
                })
            },
            Request::Paste { terminal_session_id, lease_generation, bytes } => if bytes@.len()
                > MAX_INPUT_BYTES {
                action is Reply && action->Reply_0@ == ResponseView::Error(
                    "terminal paste command exceeds 1 MiB"@,
                )
            } else {
                action == (ClientAction::Controlled {
                    terminal_session_id,
                    lease_generation,
                    request: WorkerRequest::Paste { terminal_session_id, bytes },
                })
            },
            Request::Resize { terminal_session_id, lease_generation, size } => action == (
            ClientAction::Controlled {
                terminal_session_id,
                lease_generation,
                request: WorkerRequest::Resize { terminal_session_id, size },
            }),
            Request::Snapshot { terminal_session_id, since } => action == ClientAction::Ask(
                WorkerRequest::Snapshot { terminal_session_id, since },
            ),
            Request::CoreSnapshot => action == ClientAction::Hierarchy,
            Request::ApplyCoreCommand { expected_revision, command } => action == (
            ClientAction::Apply { expected_revision, command }),
            Request::ControlLease { terminal_session_id } => action == (ClientAction::Lease {
                terminal_session_id,
            }),
            Request::TransferControl { terminal_session_id, lease_generation, target } => action
                == (ClientAction::Transfer { terminal_session_id, lease_generation, target }),
            Request::AcquireControl { terminal_session_id, lease_generation } => action == (
            ClientAction::Acquire { terminal_session_id, lease_generation }),
            Request::Detach => action == ClientAction::Detach,
            Request::StopResidentCore => action == ClientAction::Stop,
        },
{
    match request {
        Request::Hello { .. } => ClientAction::Reply(
            Response::Error("UI Client already completed its handshake".to_owned()),
        ),
        Request::Input { terminal_session_id, lease_generation, bytes } => {
            if bytes.len() > MAX_INPUT_BYTES {
                return ClientAction::Reply(
                    Response::Error("terminal input command exceeds 1 MiB".to_owned()),
                );
            }
            ClientAction::Controlled {
                terminal_session_id,
                lease_generation,
                request: WorkerRequest::Input { terminal_session_id, bytes },
            }
        },
        Request::Paste { terminal_session_id, lease_generation, bytes } => {
            if bytes.len() > MAX_INPUT_BYTES {
                return ClientAction::Reply(
                    Response::Error("terminal paste command exceeds 1 MiB".to_owned()),
                );
            }
            ClientAction::Controlled {
                terminal_session_id,
                lease_generation,
                request: WorkerRequest::Paste { terminal_session_id, bytes },
            }
        },
        Request::Resize { terminal_session_id, lease_generation, size } => {
            ClientAction::Controlled {
                terminal_session_id,
                lease_generation,
                request: WorkerRequest::Resize { terminal_session_id, size },
            }
        },
        Request::Snapshot { terminal_session_id, since } => ClientAction::Ask(
            WorkerRequest::Snapshot { terminal_session_id, since },
        ),
        Request::CoreSnapshot => ClientAction::Hierarchy,
        Request::ApplyCoreCommand { expected_revision, command } => ClientAction::Apply {
            expected_revision,
            command,
        },
        Request::ControlLease { terminal_session_id } => ClientAction::Lease {
            terminal_session_id,
        },
        Request::TransferControl { terminal_session_id, lease_generation, target } => {
            ClientAction::Transfer { terminal_session_id, lease_generation, target }
        },
        Request::AcquireControl { terminal_session_id, lease_generation } => {
            ClientAction::Acquire { terminal_session_id, lease_generation }
        },
        Request::Detach => ClientAction::Detach,
        Request::StopResidentCore => ClientAction::Stop,
    }
}

/// What a Resident Core keeps beside the hierarchy and the terminals.
pub struct ResidentCore {
    control: ControlState,
    semantic_sequence: u64,
    terminal_sequence: u64,
    next_client_id: u64,
}

#[verifier::ext_equal]
pub struct ResidentView {
    pub control: ControlView,
    pub semantic_sequence: u64,
    pub terminal_sequence: u64,
    pub next_client_id: u64,
}

impl View for ResidentCore {
    type V = ResidentView;

    closed spec fn view(&self) -> ResidentView {
        ResidentView {
            control: self.control@,
            semantic_sequence: self.semantic_sequence,
            terminal_sequence: self.terminal_sequence,
            next_client_id: self.next_client_id,
        }
    }
}

impl ResidentView {
    /// Whether `events` tell, under the next numbers, of each lease that
    /// `after` has and this has not.
    pub open spec fn tells_leases(
        self,
        events: Seq<SemanticEventView>,
        after: ResidentView,
    ) -> bool {
        exists|changes: Seq<ControlLease>|
            #![trigger lists_changes(changes, self.control.leases, after.control.leases)]
            lists_changes(changes, self.control.leases, after.control.leases) && events
                == lease_events(self.semantic_sequence, changes) && after.semantic_sequence
                == sequence_after(self.semantic_sequence, changes.len())
    }

    /// After a session changed hands.
    pub open spec fn handed_to(
        self,
        session: TerminalSessionId,
        controller: UiClientId,
    ) -> ResidentView {
        ResidentView {
            control: self.control.handed_to(session, controller),
            semantic_sequence: next_sequence(self.semantic_sequence),
            ..self
        }
    }

    /// The event that tells of a session's new lease.
    pub open spec fn handover_event(self, session: TerminalSessionId) -> SemanticEventView {
        SemanticEventView {
            sequence: self.semantic_sequence,
            kind: SemanticEventKindView::ControlLeaseChanged {
                lease: self.control.leases[session.0],
            },
        }
    }
}

/// Whether a command on the hierarchy that a client has sent is settled by
/// telling the client `response` and all `events`: the hierarchy first, then
/// the leases of new sessions, which the client gets.
pub open spec fn settles_command(
    before: ResidentView,
    after: ResidentView,
    client: UiClientId,
    result: Result<WorkerResponse, String>,
    response: ResponseView,
    events: Seq<SemanticEventView>,
) -> bool {
    match result {
        Ok(WorkerResponse::CoreCommandAccepted(outcome)) => {
            let told = ResidentView {
                semantic_sequence: next_sequence(before.semantic_sequence),
                ..before
            };
            &&& after.control == before.control.reconciled(
                session_set(outcome@.snapshot.sessions),
                client,
            )
            &&& events.len() > 0 && events[0] == (SemanticEventView {
                sequence: told.semantic_sequence,
                kind: SemanticEventKindView::HierarchyChanged { revision: outcome.revision },
            })
            &&& told.tells_leases(events.skip(1), after)
            &&& response is CoreCommandAccepted
            &&& lists_changes(
                response->CoreCommandAccepted_0.control_leases,
                Map::empty(),
                after.control.leases,
            )
            &&& response->CoreCommandAccepted_0 == OutcomeView {
                control_leases: response->CoreCommandAccepted_0.control_leases,
                ..outcome@
            }
        },
        Ok(WorkerResponse::CoreCommandRejected(error)) => response
            == ResponseView::CoreCommandRejected(error) && events.len() == 0 && after == before,
        Ok(_) => response == ResponseView::Error("invalid Core command worker response"@)
            && events.len() == 0 && after == before,
        Err(error) => response == ResponseView::Error(error@) && events.len() == 0 && after
            == before,
    }
}

/// Whether a question for the hierarchy is settled: leases of sessions that are
/// gone are forgotten.
pub open spec fn settles_hierarchy(
    before: ResidentView,
    after: ResidentView,
    result: Result<WorkerResponse, String>,
    settled: Result<(CoreSnapshot, Vec<ControlLease>), String>,
) -> bool {
    match result {
        Ok(WorkerResponse::CoreSnapshot(snapshot)) => {
            &&& after == (ResidentView {
                control: before.control.retained(session_set(snapshot@.sessions)),
                ..before
            })
            &&& match settled {
                Ok((hierarchy, leases)) => hierarchy == snapshot && lists_changes(
                    leases@,
                    Map::empty(),
                    after.control.leases,
                ),
                Err(_) => false,
            }
        },
        Ok(_) => settled is Err && settled->Err_0@ == "invalid Core snapshot worker response"@
            && after == before,
        Err(error) => settled is Err && settled->Err_0@ == error@ && after == before,
    }
}

impl ResidentCore {
    /// A Resident Core that starts with a hierarchy.
    pub fn start(snapshot: &CoreSnapshot) -> (core: Self)
        ensures
            core@.control.connected == Set::<u64>::empty(),
            core@.control.leases == Map::new(
                |session: u64| session_set(snapshot@.sessions).contains(session),
                |session: u64| super::control::idle_lease(session),
            ),
            core@.control.well_formed(),
            core@.semantic_sequence == 0,
            core@.terminal_sequence == 0,
            core@.next_client_id == 1,
    {
        ResidentCore {
            control: ControlState::new(snapshot),
            semantic_sequence: 0,
            terminal_sequence: 0,
            next_client_id: 1,
        }
    }

    /// Connects a client: its identity, and what is told to all.
    pub fn attach_client(&mut self) -> (result: (UiClientId, Vec<SemanticEvent>))
        requires
            old(self)@.control.well_formed(),
        ensures
            result.0 == UiClientId(old(self)@.next_client_id),
            final(self)@.control == old(self)@.control.attached(result.0),
            old(self)@.tells_leases(event_views(result.1@), final(self)@),
            final(self)@.terminal_sequence == old(self)@.terminal_sequence,
            final(self)@.next_client_id == old(self)@.next_client_id.wrapping_add(1),
            final(self)@.control.well_formed(),
    {
        let client = UiClientId(self.next_client_id);
        self.next_client_id = self.next_client_id.wrapping_add(1);
        let changes = self.control.attach(client);
        let events = number_lease_events(&mut self.semantic_sequence, &changes);
        proof {
            assert(lists_changes(changes@, old(self)@.control.leases, self@.control.leases));
        }
        (client, events)
    }

    /// Disconnects a client; says what is told to all.
    pub fn detach_client(&mut self, client: UiClientId) -> (events: Vec<SemanticEvent>)
        requires
            old(self)@.control.well_formed(),
        ensures
            final(self)@.control == old(self)@.control.detached(client),
            old(self)@.tells_leases(event_views(events@), final(self)@),
            final(self)@.terminal_sequence == old(self)@.terminal_sequence,
            final(self)@.next_client_id == old(self)@.next_client_id,
            final(self)@.control.well_formed(),
    {
        let changes = self.control.detach(client);
        let events = number_lease_events(&mut self.semantic_sequence, &changes);
        proof {
            assert(lists_changes(changes@, old(self)@.control.leases, self@.control.leases));
        }
        events
    }

    /// The number of the last semantic event.
    pub fn semantic_sequence(&self) -> (sequence: u64)
        ensures
            sequence == self@.semantic_sequence,
    {
        self.semantic_sequence
    }

    /// The answer to a question for a lease.
    pub fn control_lease(&self, session: TerminalSessionId) -> (response: Response)
        ensures
            response@ == if self@.control.leases.contains_key(session.0) {
                ResponseView::ControlLease(self@.control.leases[session.0])
            } else {
                ResponseView::Error(missing_session(session))
            },
    {
        match self.control.control_lease(session) {
            Some(lease) => Response::ControlLease(lease),
            None => Response::Error(missing_session_message(session)),
        }
    }

    /// Whether a client may have a request handed to a terminal, or what it is
    /// told instead.
    pub fn authorize(
        &self,
        client: UiClientId,
        session: TerminalSessionId,
        lease_generation: u64,
    ) -> (result: Result<(), Response>)
        ensures
            match self@.control.refusal(client, session, lease_generation) {
                None => result is Ok,
                Some(refusal) => result is Err && result->Err_0@ == refusal.spec_response(session),
            },
    {
        match self.control.authorize(client, session, lease_generation) {
            Ok(()) => Ok(()),
            Err(refusal) => Err(refusal.response(session)),
        }
    }

    /// Hands a session over; says what the client and what all are told.
    pub fn transfer_control(
        &mut self,
        client: UiClientId,
        session: TerminalSessionId,
        lease_generation: u64,
        target: UiClientId,
    ) -> (result: (Response, Option<SemanticEvent>))
        ensures
            match old(self)@.control.transfer_refusal(client, session, lease_generation, target) {
                Some(refusal) => result.0@ == refusal.spec_response(session) && result.1 is None
                    && final(self)@ == old(self)@,
                None => final(self)@ == old(self)@.handed_to(session, target) && result.0@
                    == ResponseView::ControlLease(final(self)@.control.leases[session.0])
                    && result.1 is Some && result.1->0@ == final(self)@.handover_event(session),
            },
            old(self)@.control.well_formed() ==> final(self)@.control.well_formed(),
    {
        match self.control.transfer_control(client, session, lease_generation, target) {
            Err(refusal) => (refusal.response(session), None),
            Ok(lease) => {
                let event = number_event(
                    &mut self.semantic_sequence,
                    SemanticEventKind::ControlLeaseChanged { lease },
                );
                (Response::ControlLease(lease), Some(event))
            },
        }
    }

    /// Gives a session that nobody controls to a client; says what the client
    /// and what all are told.
    pub fn acquire_control(
        &mut self,
        client: UiClientId,
        session: TerminalSessionId,
        lease_generation: u64,
    ) -> (result: (Response, Option<SemanticEvent>))
        ensures
            match old(self)@.control.acquire_refusal(session, lease_generation) {
                Some(refusal) => result.0@ == refusal.spec_response(session) && result.1 is None
                    && final(self)@ == old(self)@,
                None => final(self)@ == old(self)@.handed_to(session, client) && result.0@
                    == ResponseView::ControlLease(final(self)@.control.leases[session.0])
                    && result.1 is Some && result.1->0@ == final(self)@.handover_event(session),
            },
            old(self)@.control.well_formed() ==> final(self)@.control.well_formed(),
    {
        match self.control.acquire_control(client, session, lease_generation) {
            Err(refusal) => (refusal.response(session), None),
            Ok(lease) => {
                let event = number_event(
                    &mut self.semantic_sequence,
                    SemanticEventKind::ControlLeaseChanged { lease },
                );
                (Response::ControlLease(lease), Some(event))
            },
        }
    }

    /// Settles a command on the hierarchy that a client has sent; says what
    /// the client and what all are told.
    pub fn settle_command(
        &mut self,
        client: UiClientId,
        result: Result<WorkerResponse, String>,
    ) -> (settled: (Response, Vec<SemanticEvent>))
        requires
            old(self)@.control.well_formed(),
        ensures
            settles_command(
                old(self)@,
                final(self)@,
                client,
                result,
                settled.0@,
                event_views(settled.1@),
            ),
            final(self)@.control.well_formed(),
            final(self)@.terminal_sequence == old(self)@.terminal_sequence,
            final(self)@.next_client_id == old(self)@.next_client_id,
    {
        match result {
            Ok(WorkerResponse::CoreCommandAccepted(outcome)) => {
                let created = self.control.reconcile(&outcome.snapshot, client);
                let control_leases = self.control.leases();
                let hierarchy_event = number_event(
                    &mut self.semantic_sequence,
                    SemanticEventKind::HierarchyChanged { revision: outcome.revision },
                );
                let ghost first = hierarchy_event@;
                let ghost numbered = self.semantic_sequence;
                let mut events: Vec<SemanticEvent> = Vec::new();
                events.push(hierarchy_event);
                let mut lease_events = number_lease_events(&mut self.semantic_sequence, &created);
                let ghost told = event_views(lease_events@);
                events.append(&mut lease_events);
                proof {
                    assert(event_views(events@).skip(1) =~= told);
                    assert(event_views(events@)[0] == first);
                    assert(lists_changes(
                        created@,
                        old(self)@.control.leases,
                        self@.control.leases,
                    ));
                }
                let ghost asked = outcome@;
                let settled = CoreCommandOutcome {
                    revision: outcome.revision,
                    snapshot: outcome.snapshot,
                    created: outcome.created,
                    control_leases,
                };
                proof {
                    let before = ResidentView { semantic_sequence: numbered, ..old(self)@ };
                    assert(lists_changes(
                        created@,
                        before.control.leases,
                        self@.control.leases,
                    ));
                    assert(before.tells_leases(event_views(events@).skip(1), self@));
                    assert(settled@ == (OutcomeView {
                        control_leases: settled@.control_leases,
                        ..asked
                    }));
                }
                (Response::CoreCommandAccepted(settled), events)
            },
            Ok(WorkerResponse::CoreCommandRejected(error)) => (
                Response::CoreCommandRejected(error),
                Vec::new(),
            ),
            Ok(_) => (
                Response::Error("invalid Core command worker response".to_owned()),
                Vec::new(),
            ),
            Err(error) => (Response::Error(error), Vec::new()),
        }
    }

    /// The hierarchy with the leases of its sessions.
    pub fn settle_hierarchy(&mut self, result: Result<WorkerResponse, String>) -> (settled: Result<
        (CoreSnapshot, Vec<ControlLease>),
        String,
    >)
        requires
            old(self)@.control.well_formed(),
        ensures
            settles_hierarchy(old(self)@, final(self)@, result, settled),
            final(self)@.control.well_formed(),
    {
        match result {
            Ok(WorkerResponse::CoreSnapshot(snapshot)) => {
                self.control.retain_sessions(&snapshot);
                let leases = self.control.leases();
                Ok((snapshot, leases))
            },
            Ok(_) => Err("invalid Core snapshot worker response".to_owned()),
            Err(error) => Err(error),
        }
    }

    /// Numbers a change of a terminal.
    pub fn number_change(&mut self, session: TerminalSessionId, revision: u64) -> (change:
        TerminalChange)
        ensures
            final(self)@ == (ResidentView {
                terminal_sequence: next_sequence(old(self)@.terminal_sequence),
                ..old(self)@
            }),
            change == (TerminalChange {
                sequence: final(self)@.terminal_sequence,
                terminal_session_id: session,
                terminal_revision: revision,
            }),
    {
        self.terminal_sequence = self.terminal_sequence.saturating_add(1);
        TerminalChange {
            sequence: self.terminal_sequence,
            terminal_session_id: session,
            terminal_revision: revision,
        }
    }

    /// Numbers an event that is told to all.
    pub fn number_event(&mut self, kind: SemanticEventKind) -> (event: SemanticEvent)
        ensures
            final(self)@ == (ResidentView {
                semantic_sequence: next_sequence(old(self)@.semantic_sequence),
                ..old(self)@
            }),
            event@ == (SemanticEventView {
                sequence: final(self)@.semantic_sequence,
                kind: kind@,
            }),
    {
        number_event(&mut self.semantic_sequence, kind)
    }
}

/// A client that is refused changes nothing, and is told the lease as it is.
pub proof fn law_refusals_tell_the_lease(
    core: ResidentView,
    client: UiClientId,
    session: TerminalSessionId,
    generation: u64,
)
    requires
        core.control.leases.contains_key(session.0),
        core.control.refusal(client, session, generation) is Some,
    ensures
        core.control.refusal(client, session, generation)->0.spec_response(session) matches
            ResponseView::ControlLeaseDenied { lease, .. } && lease
            == core.control.leases[session.0],
{
}

/// A command that was accepted is told to all under the next number, with the
/// revision that it brought. The client learns the hierarchy and the lease of
/// every session, and controls the sessions that it created.
pub proof fn law_accepted_commands_are_told_to_all(
    before: ResidentView,
    after: ResidentView,
    client: UiClientId,
    outcome: CoreCommandOutcome,
    response: ResponseView,
    events: Seq<SemanticEventView>,
    session: int,
)
    requires
        settles_command(
            before,
            after,
            client,
            Ok(WorkerResponse::CoreCommandAccepted(outcome)),
            response,
            events,
        ),
        before.semantic_sequence < u64::MAX,
        before.control.well_formed(),
        0 <= session < outcome@.snapshot.sessions.len(),
    ensures
        ({
            let id = outcome@.snapshot.sessions[session].id;
            let lease = after.control.leases[id.0];
            &&& events[0].sequence == before.semantic_sequence + 1
            &&& events[0].kind == (SemanticEventKindView::HierarchyChanged {
                revision: outcome.revision,
            })
            &&& response matches ResponseView::CoreCommandAccepted(told)
            &&& told.revision == outcome.revision
            &&& told.snapshot == outcome@.snapshot
            &&& told.created == outcome.created
            &&& after.control.leases.contains_key(id.0)
            &&& told.control_leases.contains(lease)
            &&& after.control.connected == before.control.connected
            &&& if before.control.leases.contains_key(id.0) {
                lease == before.control.leases[id.0]
            } else {
                &&& after.control.refusal(client, id, 1) is None
                &&& exists|i: int|
                    0 < i < events.len() && (#[trigger] events[i]).kind == (
                    SemanticEventKindView::ControlLeaseChanged { lease })
            }
        }),
{
    let id = outcome@.snapshot.sessions[session].id;
    let lease = after.control.leases[id.0];
    super::control::law_creators_control_what_they_create(
        before.control,
        outcome@.snapshot.sessions,
        client,
        id,
    );
    assert(holds_lease(after.control.leases, lease));
    assert(response->CoreCommandAccepted_0.control_leases.contains(lease));
    if !before.control.leases.contains_key(id.0) {
        let told = ResidentView {
            semantic_sequence: next_sequence(before.semantic_sequence),
            ..before
        };
        let rest = events.skip(1);
        let changes = choose|changes: Seq<ControlLease>|
            #![trigger lists_changes(changes, told.control.leases, after.control.leases)]
            lists_changes(changes, told.control.leases, after.control.leases) && rest
                == lease_events(told.semantic_sequence, changes) && after.semantic_sequence
                == sequence_after(told.semantic_sequence, changes.len());
        assert(changes.contains(lease));
        let i = changes.index_of(lease);
        lemma_lease_event_kind(told.semantic_sequence, changes, i);
        assert(rest[i] == events[i + 1]);
    }
}

proof fn lemma_lease_event_kind(sequence: u64, leases: Seq<ControlLease>, index: int)
    requires
        0 <= index < leases.len(),
    ensures
        lease_events(sequence, leases).len() == leases.len(),
        lease_events(sequence, leases)[index].kind == (
        SemanticEventKindView::ControlLeaseChanged { lease: leases[index] }),
    decreases leases.len(),
{
    lemma_lease_event_count(sequence, leases.drop_last());
    if index < leases.len() - 1 {
        lemma_lease_event_kind(sequence, leases.drop_last(), index);
    }
}

/// A command that was not accepted is told to nobody but the client that sent it,
/// and changes nothing.
pub proof fn law_other_commands_change_nothing(
    before: ResidentView,
    after: ResidentView,
    client: UiClientId,
    result: Result<WorkerResponse, String>,
    response: ResponseView,
    events: Seq<SemanticEventView>,
)
    requires
        settles_command(before, after, client, result, response, events),
        !(result is Ok && result->Ok_0 is CoreCommandAccepted),
    ensures
        after == before,
        events.len() == 0,
        result matches Ok(WorkerResponse::CoreCommandRejected(error)) ==> response
            == ResponseView::CoreCommandRejected(error),
        result matches Err(error) ==> response == ResponseView::Error(error@),
        result is Ok && !(result->Ok_0 is CoreCommandRejected) ==> response is Error,
{
}

/// A client that asks for the hierarchy gets it with the lease of each of its
/// sessions that has one, and of no other.
pub proof fn law_hierarchies_come_with_their_leases(
    before: ResidentView,
    after: ResidentView,
    snapshot: CoreSnapshot,
    settled: Result<(CoreSnapshot, Vec<ControlLease>), String>,
    lease: ControlLease,
)
    requires
        settles_hierarchy(before, after, Ok(WorkerResponse::CoreSnapshot(snapshot)), settled),
    ensures
        ({
            let id = lease.terminal_session_id;
            let sessions = snapshot@.sessions;
            &&& settled matches Ok((hierarchy, leases))
            &&& hierarchy == snapshot
            &&& leases@.contains(lease) <==> before.control.leases.contains_key(id.0)
                && before.control.leases[id.0] == lease && exists|i: int|
                0 <= i < sessions.len() && (#[trigger] sessions[i]).id == id
            &&& after.semantic_sequence == before.semantic_sequence
        }),
{
    super::control::law_creators_control_what_they_create(
        before.control,
        snapshot@.sessions,
        UiClientId(0),
        lease.terminal_session_id,
    );
    let leases = settled->Ok_0.1@;
    assert(leases.contains(lease) <==> holds_lease(after.control.leases, lease));
}

/// A session that changed hands is told of to all, under the next number, with the
/// lease that its new controller acts under.
pub proof fn law_handovers_are_told_to_all(
    core: ResidentView,
    session: TerminalSessionId,
    controller: UiClientId,
)
    requires
        core.control.leases.contains_key(session.0),
        core.semantic_sequence < u64::MAX,
    ensures
        ({
            let after = core.handed_to(session, controller);
            let event = after.handover_event(session);
            &&& event.sequence == core.semantic_sequence + 1
            &&& after.semantic_sequence == core.semantic_sequence + 1
            &&& event.kind matches SemanticEventKindView::ControlLeaseChanged { lease }
            &&& after.control.refusal(controller, session, lease.generation) is None
            &&& lease.controller == Some(controller)
            &&& after.terminal_sequence == core.terminal_sequence
            &&& after.next_client_id == core.next_client_id
        }),
{
}

/// A client is told of an answer as it is, and of a failure in its own words.
pub proof fn law_answers_are_passed_on(response: Result<WorkerResponse, String>)
    ensures
        response matches Err(error) ==> told(response) == ResponseView::Error(error@),
        told(response) is Error ==> response is Err,
        told(response) is Ack <==> response is Ok && response->Ok_0 is Ack,
        response matches Ok(WorkerResponse::CoreSnapshot(snapshot)) ==> told(response)
            == ResponseView::CoreSnapshot(snapshot@),
        response matches Ok(WorkerResponse::CoreCommandAccepted(outcome)) ==> told(response)
            == ResponseView::CoreCommandAccepted(outcome@),
        response matches Ok(WorkerResponse::CoreCommandRejected(error)) ==> told(response)
            == ResponseView::CoreCommandRejected(error),
        response matches Ok(WorkerResponse::Snapshot(update)) ==> {
            &&& told(response) matches ResponseView::Snapshot(shown)
            &&& shown is Some <==> update is Some
            &&& update is Some ==> shown->0 == update->0@
        },
{
}

} // verus!
