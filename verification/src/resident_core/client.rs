//! What a client keeps of a Resident Core, and what it makes of its responses.

use super::auth::{proof_of, verify_server_proof};
use super::control::{missing_session, missing_session_message, session_keys, session_set};
use super::endpoint::CoreEndpoint;
use super::protocol::{
    ControlLease, ControlLeaseDenial, CoreCommandOutcome, Request, RequestView, Response,
    ResponseView, SemanticEvent, SemanticEventKind, SemanticEventKindView, TerminalUpdate,
    UiClientId, PROTOCOL_VERSION,
};
use super::snapshot::{
    accept_objection, accept_update, full_snapshot, AcceptError, TerminalSnapshot,
    TerminalSnapshotView,
};
use crate::bytes::copied;
use crate::core_model::{
    CoreCommand, CoreModelError, CoreSnapshot, HierarchyView, SessionView, TerminalSessionId,
};
use crate::table::Table;
use crate::terminal::TerminalSize;
use crate::text::{decimal, decimal_chars};
use crate::terminal::update_objection;
use vstd::prelude::*;
use vstd::string::*;

verus! {

/// Why a command has not been carried out.
#[derive(Debug, PartialEq, Eq)]
pub enum CoreCommandError {
    ControlLeaseDenied { reason: ControlLeaseDenial, lease: ControlLease },
    Rejected(CoreModelError),
    Message(String),
}

#[verifier::ext_equal]
pub enum CommandErrorView {
    ControlLeaseDenied { reason: ControlLeaseDenial, lease: ControlLease },
    Rejected(CoreModelError),
    Message(Seq<char>),
}

impl View for CoreCommandError {
    type V = CommandErrorView;

    open spec fn view(&self) -> CommandErrorView {
        match *self {
            CoreCommandError::ControlLeaseDenied { reason, lease } => {
                CommandErrorView::ControlLeaseDenied { reason, lease }
            },
            CoreCommandError::Rejected(error) => CommandErrorView::Rejected(error),
            CoreCommandError::Message(message) => CommandErrorView::Message(message@),
        }
    }
}

/// What a client has asked for.
#[derive(Clone, Copy, Debug, PartialEq, Eq, Structural)]
pub enum Operation {
    Input,
    Paste,
    Resize,
    Lease,
    Transfer,
    Acquisition,
    Snapshot,
    ConditionalSnapshot,
    RecoverySnapshot,
    Hierarchy,
    Command,
    Stop,
}

impl Operation {
    pub open spec fn spec_name(self) -> Seq<char> {
        match self {
            Operation::Input => "input"@,
            Operation::Paste => "paste"@,
            Operation::Resize => "resize"@,
            Operation::Lease => "Control Lease"@,
            Operation::Transfer => "Control Lease transfer"@,
            Operation::Acquisition => "Control Lease acquisition"@,
            Operation::Snapshot => "snapshot"@,
            Operation::ConditionalSnapshot => "conditional snapshot"@,
            Operation::RecoverySnapshot => "recovery snapshot"@,
            Operation::Hierarchy => "Core snapshot"@,
            Operation::Command => "Core command"@,
            Operation::Stop => "stop"@,
        }
    }

    pub fn name(self) -> (name: &'static str)
        ensures
            name@ == self.spec_name(),
    {
        match self {
            Operation::Input => "input",
            Operation::Paste => "paste",
            Operation::Resize => "resize",
            Operation::Lease => "Control Lease",
            Operation::Transfer => "Control Lease transfer",
            Operation::Acquisition => "Control Lease acquisition",
            Operation::Snapshot => "snapshot",
            Operation::ConditionalSnapshot => "conditional snapshot",
            Operation::RecoverySnapshot => "recovery snapshot",
            Operation::Hierarchy => "Core snapshot",
            Operation::Command => "Core command",
            Operation::Stop => "stop",
        }
    }
}

/// `std::format!` with `{:?}`: a response as it is shown to developers. Nothing
/// is said of the text.
#[verifier::external_body]
fn shown(response: &Response) -> (text: String) {
    format!("{response:?}")
}

/// Whether a response can be shown to developers as `text`.
pub closed spec fn shows(response: Response, text: String) -> bool {
    call_ensures(shown, (&response,), text)
}

/// Whether `message` says that a response does not fit what was asked for.
pub open spec fn says_invalid(
    message: Seq<char>,
    operation: Operation,
    response: Response,
) -> bool {
    exists|text: String| #[trigger]
        shows(response, text) && message == "invalid "@ + operation.spec_name() + " response: "@
            + text@
}

/// That a response does not fit what was asked for, in words.
pub fn invalid_message(operation: Operation, response: &Response) -> (message: String)
    ensures
        says_invalid(message@, operation, *response),
{
    let mut message = "invalid ".to_owned();
    message.append(operation.name());
    message.append(" response: ");
    let text = shown(response);
    proof {
        assert(shows(*response, text));
    }
    message.append(text.as_str());
    message
}

pub open spec fn denial_name(reason: ControlLeaseDenial) -> Seq<char> {
    match reason {
        ControlLeaseDenial::HeldByOther => "HeldByOther"@,
        ControlLeaseDenial::NoController => "NoController"@,
        ControlLeaseDenial::StaleGeneration => "StaleGeneration"@,
        ControlLeaseDenial::TargetUnavailable => "TargetUnavailable"@,
    }
}

pub open spec fn controller_name(controller: Option<UiClientId>) -> Seq<char> {
    match controller {
        Some(client) => "Some(UiClientId("@ + decimal_chars(client.0 as nat) + "))"@,
        None => "None"@,
    }
}

/// A denied lease in words.
pub open spec fn denial_text(reason: ControlLeaseDenial, lease: ControlLease) -> Seq<char> {
    "Control Lease denied ("@ + denial_name(reason) + "); controller "@ + controller_name(
        lease.controller,
    ) + ", generation "@ + decimal_chars(lease.generation as nat)
}

/// A denied lease in words.
pub fn denial_message(reason: ControlLeaseDenial, lease: &ControlLease) -> (message: String)
    ensures
        message@ == denial_text(reason, *lease),
{
    let mut message = "Control Lease denied (".to_owned();
    message.append(
        match reason {
            ControlLeaseDenial::HeldByOther => "HeldByOther",
            ControlLeaseDenial::NoController => "NoController",
            ControlLeaseDenial::StaleGeneration => "StaleGeneration",
            ControlLeaseDenial::TargetUnavailable => "TargetUnavailable",
        },
    );
    message.append("); controller ");
    let ghost head = message@;
    match lease.controller {
        Some(client) => {
            message.append("Some(UiClientId(");
            message.append(decimal(client.0).as_str());
            message.append("))");
            proof {
                assert(message@ =~= head + controller_name(Some(client)));
            }
        },
        None => {
            message.append("None");
        },
    }
    message.append(", generation ");
    message.append(decimal(lease.generation).as_str());
    message
}

/// The message that the lease of a session is not known.
pub open spec fn no_lease_text(session: TerminalSessionId) -> Seq<char> {
    "Terminal Session "@ + decimal_chars(session.0 as nat) + " has no Control Lease"@
}

fn no_lease_message(session: TerminalSessionId) -> (message: String)
    ensures
        message@ == no_lease_text(session),
{
    let mut message = "Terminal Session ".to_owned();
    message.append(decimal(session.0).as_str());
    message.append(" has no Control Lease");
    message
}

/// What a client keeps of a Resident Core.
pub struct CoreClient {
    client_id: UiClientId,
    core_snapshot: CoreSnapshot,
    active: Option<TerminalSessionId>,
    control_leases: Table<ControlLease>,
    terminal_snapshots: Table<TerminalSnapshot>,
}

#[verifier::ext_equal]
pub struct ClientView {
    pub client_id: UiClientId,
    pub hierarchy: HierarchyView,
    pub active: Option<TerminalSessionId>,
    pub leases: Map<u64, ControlLease>,
    pub terminals: Map<u64, TerminalSnapshotView>,
}

impl View for CoreClient {
    type V = ClientView;

    closed spec fn view(&self) -> ClientView {
        ClientView {
            client_id: self.client_id,
            hierarchy: self.core_snapshot@,
            active: self.active,
            leases: self.control_leases@,
            terminals: terminal_views(self.terminal_snapshots@),
        }
    }
}

spec fn terminal_views(terminals: Map<u64, TerminalSnapshot>) -> Map<u64, TerminalSnapshotView> {
    terminals.map_values(|snapshot: TerminalSnapshot| snapshot@)
}

/// The first of `sessions`.
pub open spec fn first_session(sessions: Seq<SessionView>) -> Option<TerminalSessionId> {
    if sessions.len() > 0 {
        Some(sessions[0].id)
    } else {
        None
    }
}

/// The leases by their sessions; the last counts where there are several.
pub open spec fn filed_leases(
    known: Map<u64, ControlLease>,
    leases: Seq<ControlLease>,
) -> Map<u64, ControlLease>
    decreases leases.len(),
{
    if leases.len() == 0 {
        known
    } else {
        filed_leases(known, leases.drop_last()).insert(
            leases.last().terminal_session_id.0,
            leases.last(),
        )
    }
}

fn file_leases(known: &mut Table<ControlLease>, leases: &Vec<ControlLease>)
    ensures
        final(known)@ == filed_leases(old(known)@, leases@),
{
    let mut index: usize = 0;
    while index < leases.len()
        invariant
            index <= leases@.len(),
            known@ == filed_leases(old(known)@, leases@.take(index as int)),
        decreases leases@.len() - index,
    {
        known.insert(leases[index].terminal_session_id.0, leases[index]);
        index += 1;
        proof {
            assert(leases@.take(index as int).drop_last() =~= leases@.take(index - 1));
        }
    }
    proof {
        assert(leases@.take(index as int) =~= leases@);
    }
}

impl ClientView {
    /// After the hierarchy arrived.
    pub open spec fn with_hierarchy(self, hierarchy: HierarchyView) -> ClientView {
        let sessions = session_set(hierarchy.sessions);
        ClientView {
            hierarchy,
            active: match self.active {
                Some(session) if sessions.contains(session.0) => Some(session),
                _ => first_session(hierarchy.sessions),
            },
            leases: self.leases.restrict(sessions),
            terminals: self.terminals.restrict(sessions),
            ..self
        }
    }

    /// After a lease arrived.
    pub open spec fn with_lease(self, lease: ControlLease) -> ClientView {
        ClientView { leases: self.leases.insert(lease.terminal_session_id.0, lease), ..self }
    }

    /// The generation of a session's lease, as far as it is known.
    pub open spec fn generation(self, session: TerminalSessionId) -> Option<u64> {
        if self.leases.contains_key(session.0) {
            Some(self.leases[session.0].generation)
        } else {
            None
        }
    }

    pub open spec fn with_terminal(
        self,
        session: TerminalSessionId,
        terminal: TerminalSnapshotView,
    ) -> ClientView {
        ClientView { terminals: self.terminals.insert(session.0, terminal), ..self }
    }

    /// The objection to an update of a terminal.
    pub open spec fn update_objection(
        self,
        session: TerminalSessionId,
        update: TerminalUpdate,
    ) -> Option<AcceptError> {
        if update.base_revision is Some && !self.terminals.contains_key(session.0) {
            Some(AcceptError::DeltaBeforeFull)
        } else {
            let objection = if update.base_revision is None {
                super::snapshot::full_objection(update@)
            } else {
                self.terminals[session.0].delta_objection(update@)
            };
            match objection {
                Some(error) => Some(AcceptError::Snapshot(error)),
                None => None,
            }
        }
    }

    /// Whether `terminal` is what an update makes of a terminal.
    pub open spec fn updates_terminal(
        self,
        session: TerminalSessionId,
        update: TerminalUpdate,
        terminal: TerminalSnapshotView,
    ) -> bool {
        if update.base_revision is None {
            terminal == full_snapshot(update)
        } else {
            self.terminals[session.0].updates_to(update, terminal)
        }
    }
}

/// Whether a client accepts a response to its handshake: it comes from a core
/// of the same protocol that knows the secret.
pub open spec fn accepts_handshake(
    response: ResponseView,
    auth_secret: Seq<u8>,
    endpoint: Seq<char>,
    nonce: Seq<u8>,
) -> bool {
    response matches ResponseView::Ready { version, proof_bytes, .. } && version
        == PROTOCOL_VERSION && proof_bytes == proof_of(auth_secret, endpoint, nonce)
}

/// Why the handshake failed.
#[derive(Debug, PartialEq, Eq)]
pub enum HandshakeError {
    Authentication,
    ProtocolMismatch { core: u16 },
    Refused(String),
    /// A response that is no answer to a handshake.
    Unexpected(Response),
}

/// Whether a client keeps what an accepted response holds, after the given
/// number of semantic events.
pub open spec fn enters(client: ClientView, sequence: u64, response: ResponseView) -> bool {
    match response {
        ResponseView::Ready { client_id, snapshot, leases, semantic_sequence, .. } => client == (
        ClientView {
            client_id,
            hierarchy: snapshot,
            active: first_session(snapshot.sessions),
            leases: filed_leases(Map::empty(), leases),
            terminals: Map::empty(),
        }) && sequence == semantic_sequence,
        _ => false,
    }
}

/// Whether a response that a client does not accept fails the handshake with
/// `error`.
pub open spec fn fails_handshake(error: HandshakeError, response: Response) -> bool {
    match response@ {
        ResponseView::Ready { version, .. } => error == if version != PROTOCOL_VERSION {
            HandshakeError::ProtocolMismatch { core: version }
        } else {
            HandshakeError::Authentication
        },
        ResponseView::Error(message) => error matches HandshakeError::Refused(actual) && actual@
            == message,
        _ => error == HandshakeError::Unexpected(response),
    }
}

impl HandshakeError {
    /// The error in words.
    pub fn message(&self) -> (message: String)
        ensures
            match *self {
                HandshakeError::Authentication => message@
                    == "Resident Core authentication failed"@,
                HandshakeError::ProtocolMismatch { core } => message@
                    == "Resident Core protocol mismatch: client 8, core "@ + decimal_chars(
                    core as nat,
                ),
                HandshakeError::Refused(error) => message@ == error@,
                HandshakeError::Unexpected(response) => exists|text: String| #[trigger]
                    shows(response, text) && message@
                        == "Resident Core returned an invalid handshake response: "@ + text@,
            },
    {
        match self {
            HandshakeError::Authentication => "Resident Core authentication failed".to_owned(),
            HandshakeError::ProtocolMismatch { core } => {
                let mut message = "Resident Core protocol mismatch: client 8, core ".to_owned();
                message.append(decimal(*core as u64).as_str());
                message
            },
            HandshakeError::Refused(error) => error.clone(),
            HandshakeError::Unexpected(response) => {
                let mut message =
                    "Resident Core returned an invalid handshake response: ".to_owned();
                let text = shown(response);
                proof {
                    assert(shows(*response, text));
                }
                message.append(text.as_str());
                message
            },
        }
    }
}

/// What a response to a command that needs control of a session says, unless it
/// does not fit such a command.
pub open spec fn acknowledged(response: ResponseView) -> Option<Result<(), CommandErrorView>> {
    match response {
        ResponseView::Ack => Some(Ok(())),
        ResponseView::ControlLeaseDenied { reason, lease } => Some(
            Err(CommandErrorView::ControlLeaseDenied { reason, lease }),
        ),
        ResponseView::Error(error) => Some(Err(CommandErrorView::Message(error))),
        _ => None,
    }
}

/// What a response to a question for a lease says, unless it does not fit one.
pub open spec fn told_lease(response: ResponseView) -> Option<
    Result<ControlLease, CommandErrorView>,
> {
    match response {
        ResponseView::ControlLease(lease) => Some(Ok(lease)),
        ResponseView::Error(error) => Some(Err(CommandErrorView::Message(error))),
        _ => None,
    }
}

/// What a response to a command that needs control does to the client.
pub open spec fn after_control(before: ClientView, response: ResponseView) -> ClientView {
    match response {
        ResponseView::ControlLeaseDenied { lease, .. } => before.with_lease(lease),
        _ => before,
    }
}

/// What a response with a lease does to the client.
pub open spec fn after_lease(before: ClientView, response: ResponseView) -> ClientView {
    match response {
        ResponseView::ControlLease(lease) => before.with_lease(lease),
        _ => before,
    }
}

/// Whether a result is the one expected, with its error by its view.
pub open spec fn command_result<T>(
    result: Result<T, CoreCommandError>,
    expected: Result<T, CommandErrorView>,
) -> bool {
    match expected {
        Ok(value) => result is Ok && result->Ok_0 == value,
        Err(error) => result is Err && result->Err_0@ == error,
    }
}

/// Whether a result says that a response does not fit what was asked for.
pub open spec fn rejects<T>(
    result: Result<T, CoreCommandError>,
    operation: Operation,
    response: Response,
) -> bool {
    result matches Err(CoreCommandError::Message(message)) && says_invalid(
        message@,
        operation,
        response,
    )
}

/// Whether a result is the one that a response gives, which does not fit what
/// was asked for where none is expected of it.
pub open spec fn reply_result<T>(
    result: Result<T, CoreCommandError>,
    expected: Option<Result<T, CommandErrorView>>,
    operation: Operation,
    response: Response,
) -> bool {
    match expected {
        Some(expected) => command_result(result, expected),
        None => rejects(result, operation, response),
    }
}

fn rejected<T>(operation: Operation, response: &Response) -> (result: Result<T, CoreCommandError>)
    ensures
        rejects(result, operation, *response),
{
    Err(CoreCommandError::Message(invalid_message(operation, response)))
}

impl CoreClient {
    /// What a client keeps after a handshake, and the number of the last
    /// semantic event before it.
    pub fn accept_handshake(
        auth_secret: &[u8; 32],
        endpoint: &CoreEndpoint,
        nonce: &[u8; 32],
        response: Response,
    ) -> (result: Result<(Self, u64), HandshakeError>)
        ensures
            match result {
                Ok((client, sequence)) => enters(client@, sequence, response@),
                Err(error) => fails_handshake(error, response),
            },
            result is Ok <==> accepts_handshake(response@, auth_secret@, endpoint@, nonce@),
    {
        match response {
            Response::Ready {
                version,
                proof_bytes,
                client_id,
                snapshot,
                leases,
                semantic_sequence,
            } => {
                if version != PROTOCOL_VERSION {
                    return Err(HandshakeError::ProtocolMismatch { core: version });
                }
                if verify_server_proof(auth_secret, endpoint, nonce, &proof_bytes).is_err() {
                    return Err(HandshakeError::Authentication);
                }
                let active = if snapshot.terminal_sessions.len() > 0 {
                    Some(snapshot.terminal_sessions[0].id)
                } else {
                    None
                };
                let mut control_leases: Table<ControlLease> = Table::new();
                file_leases(&mut control_leases, &leases);
                let client = CoreClient {
                    client_id,
                    core_snapshot: snapshot,
                    active,
                    control_leases,
                    terminal_snapshots: Table::new(),
                };
                proof {
                    assert(client@.terminals =~= Map::empty());
                }
                Ok((client, semantic_sequence))
            },
            Response::Error(error) => Err(HandshakeError::Refused(error)),
            response => Err(HandshakeError::Unexpected(response)),
        }
    }

    pub fn client_id(&self) -> (id: UiClientId)
        ensures
            id == self@.client_id,
    {
        self.client_id
    }

    pub fn core_snapshot(&self) -> (snapshot: &CoreSnapshot)
        ensures
            snapshot@ == self@.hierarchy,
    {
        &self.core_snapshot
    }

    pub fn active_terminal_session_id(&self) -> (session: Option<TerminalSessionId>)
        ensures
            session == self@.active,
    {
        self.active
    }

    /// The lease of the active session.
    pub fn control_lease(&self) -> (lease: Option<&ControlLease>)
        ensures
            match self@.active {
                Some(session) if self@.leases.contains_key(session.0) => lease is Some && *lease->0
                    == self@.leases[session.0],
                _ => lease is None,
            },
    {
        match self.active {
            Some(session) => self.control_lease_for(session),
            None => None,
        }
    }

    pub fn control_lease_for(&self, session: TerminalSessionId) -> (lease: Option<&ControlLease>)
        ensures
            if self@.leases.contains_key(session.0) {
                lease is Some && *lease->0 == self@.leases[session.0]
            } else {
                lease is None
            },
    {
        self.control_leases.get(session.0)
    }

    pub fn set_active_terminal_session(&mut self, session: TerminalSessionId) -> (result: Result<
        (),
        String,
    >)
        ensures
            if session_set(old(self)@.hierarchy.sessions).contains(session.0) {
                result is Ok && final(self)@ == (ClientView {
                    active: Some(session),
                    ..old(self)@
                })
            } else {
                result is Err && result->Err_0@ == missing_session(session) && final(self)@ == old(
                    self,
                )@
            },
    {
        let keys = session_keys(&self.core_snapshot.terminal_sessions);
        proof {
            assert(keys@.contains(session.0) == keys@.to_set().contains(session.0));
        }
        if crate::table::contains_key(&keys, session.0) {
            self.active = Some(session);
            Ok(())
        } else {
            Err(missing_session_message(session))
        }
    }

    /// The session that commands without one are for.
    pub fn active_session(&self) -> (session: Result<TerminalSessionId, CoreCommandError>)
        ensures
            command_result(
                session,
                match self@.active {
                    Some(session) => Ok(session),
                    None => Err(CommandErrorView::Message("no active Terminal Session"@)),
                },
            ),
    {
        match self.active {
            Some(session) => Ok(session),
            None => Err(CoreCommandError::Message("no active Terminal Session".to_owned())),
        }
    }

    fn lease_generation(&self, session: TerminalSessionId) -> (generation: Result<
        u64,
        CoreCommandError,
    >)
        ensures
            command_result(
                generation,
                match self@.generation(session) {
                    Some(generation) => Ok(generation),
                    None => Err(CommandErrorView::Message(no_lease_text(session))),
                },
            ),
    {
        match self.control_leases.get(session.0) {
            Some(lease) => Ok(lease.generation),
            None => Err(CoreCommandError::Message(no_lease_message(session))),
        }
    }

    /// The request that sends `bytes` to a session.
    pub fn input_request(&self, session: TerminalSessionId, bytes: &[u8]) -> (request: Result<
        Request,
        CoreCommandError,
    >)
        ensures
            match self@.generation(session) {
                Some(lease_generation) => request is Ok && request->Ok_0@ == (RequestView::Input {
                    terminal_session_id: session,
                    lease_generation,
                    bytes: bytes@,
                }),
                None => request is Err && request->Err_0@ == CommandErrorView::Message(
                    no_lease_text(session),
                ),
            },
    {
        match self.lease_generation(session) {
            Ok(lease_generation) => Ok(
                Request::Input {
                    terminal_session_id: session,
                    lease_generation,
                    bytes: copied(bytes),
                },
            ),
            Err(error) => Err(error),
        }
    }

    /// The request that pastes `bytes` into a session.
    pub fn paste_request(&self, session: TerminalSessionId, bytes: &[u8]) -> (request: Result<
        Request,
        CoreCommandError,
    >)
        ensures
            match self@.generation(session) {
                Some(lease_generation) => request is Ok && request->Ok_0@ == (RequestView::Paste {
                    terminal_session_id: session,
                    lease_generation,
                    bytes: bytes@,
                }),
                None => request is Err && request->Err_0@ == CommandErrorView::Message(
                    no_lease_text(session),
                ),
            },
    {
        match self.lease_generation(session) {
            Ok(lease_generation) => Ok(
                Request::Paste {
                    terminal_session_id: session,
                    lease_generation,
                    bytes: copied(bytes),
                },
            ),
            Err(error) => Err(error),
        }
    }

    /// The request that changes the size of a session.
    pub fn resize_request(&self, session: TerminalSessionId, size: TerminalSize) -> (request:
        Result<Request, CoreCommandError>)
        ensures
            match self@.generation(session) {
                Some(lease_generation) => request is Ok && request->Ok_0@ == (RequestView::Resize {
                    terminal_session_id: session,
                    lease_generation,
                    size,
                }),
                None => request is Err && request->Err_0@ == CommandErrorView::Message(
                    no_lease_text(session),
                ),
            },
    {
        match self.lease_generation(session) {
            Ok(lease_generation) => Ok(
                Request::Resize { terminal_session_id: session, lease_generation, size },
            ),
            Err(error) => Err(error),
        }
    }

    /// The request that hands a session over to another client.
    pub fn transfer_request(&self, session: TerminalSessionId, target: UiClientId) -> (request:
        Result<Request, CoreCommandError>)
        ensures
            match self@.generation(session) {
                Some(lease_generation) => request is Ok && request->Ok_0@ == (
                RequestView::TransferControl {
                    terminal_session_id: session,
                    lease_generation,
                    target,
                }),
                None => request is Err && request->Err_0@ == CommandErrorView::Message(
                    "Control Lease is unavailable"@,
                ),
            },
    {
        match self.control_leases.get(session.0) {
            Some(lease) => Ok(
                Request::TransferControl {
                    terminal_session_id: session,
                    lease_generation: lease.generation,
                    target,
                },
            ),
            None => Err(CoreCommandError::Message("Control Lease is unavailable".to_owned())),
        }
    }

    /// The request that takes a session over.
    pub fn acquire_request(&self, session: TerminalSessionId) -> (request: Result<
        Request,
        CoreCommandError,
    >)
        ensures
            match self@.generation(session) {
                Some(lease_generation) => request is Ok && request->Ok_0@ == (
                RequestView::AcquireControl { terminal_session_id: session, lease_generation }),
                None => request is Err && request->Err_0@ == CommandErrorView::Message(
                    "Control Lease is unavailable"@,
                ),
            },
    {
        match self.control_leases.get(session.0) {
            Some(lease) => Ok(
                Request::AcquireControl {
                    terminal_session_id: session,
                    lease_generation: lease.generation,
                },
            ),
            None => Err(CoreCommandError::Message("Control Lease is unavailable".to_owned())),
        }
    }

    /// The request that applies a command to the hierarchy that is known.
    pub fn command_request(&self, command: CoreCommand) -> (request: Request)
        ensures
            request@ == (RequestView::ApplyCoreCommand {
                expected_revision: self@.hierarchy.revision,
                command: command@,
            }),
    {
        Request::ApplyCoreCommand { expected_revision: self.core_snapshot.revision, command }
    }

    /// Takes the response to input, a paste or a change of size.
    pub fn accept_acknowledgement(&mut self, operation: Operation, response: Response) -> (result:
        Result<(), CoreCommandError>)
        ensures
            final(self)@ == after_control(old(self)@, response@),
            reply_result(result, acknowledged(response@), operation, response),
    {
        match response {
            Response::Ack => Ok(()),
            Response::ControlLeaseDenied { reason, lease } => {
                self.control_leases.insert(lease.terminal_session_id.0, lease);
                Err(CoreCommandError::ControlLeaseDenied { reason, lease })
            },
            Response::Error(error) => Err(CoreCommandError::Message(error)),
            response => rejected(operation, &response),
        }
    }

    /// Takes the response to a question for a lease.
    pub fn accept_lease(&mut self, operation: Operation, response: Response) -> (result: Result<
        ControlLease,
        CoreCommandError,
    >)
        ensures
            final(self)@ == after_lease(old(self)@, response@),
            reply_result(result, told_lease(response@), operation, response),
    {
        match response {
            Response::ControlLease(lease) => {
                self.control_leases.insert(lease.terminal_session_id.0, lease);
                Ok(lease)
            },
            Response::Error(error) => Err(CoreCommandError::Message(error)),
            response => rejected(operation, &response),
        }
    }

    /// Takes the response to a transfer or an acquisition.
    pub fn accept_handover(&mut self, operation: Operation, response: Response) -> (result: Result<
        ControlLease,
        CoreCommandError,
    >)
        ensures
            final(self)@ == after_lease(after_control(old(self)@, response@), response@),
            reply_result(
                result,
                match response@ {
                    ResponseView::ControlLeaseDenied { reason, lease } => Some(
                        Err(CommandErrorView::ControlLeaseDenied { reason, lease }),
                    ),
                    _ => told_lease(response@),
                },
                operation,
                response,
            ),
    {
        match response {
            Response::ControlLeaseDenied { reason, lease } => {
                self.control_leases.insert(lease.terminal_session_id.0, lease);
                Err(CoreCommandError::ControlLeaseDenied { reason, lease })
            },
            response => self.accept_lease(operation, response),
        }
    }

    /// Takes an update of a terminal.
    pub fn accept_update(&mut self, session: TerminalSessionId, update: TerminalUpdate) -> (result:
        Result<TerminalSnapshot, AcceptError>)
        ensures
            match old(self)@.update_objection(session, update) {
                Some(error) => result is Err && result->Err_0 == error && final(self)@ == old(
                    self,
                )@,
                None => result is Ok && old(self)@.updates_terminal(
                    session,
                    update,
                    result->Ok_0@,
                ) && final(self)@ == old(self)@.with_terminal(session, result->Ok_0@),
            },
    {
        let ghost before = self.terminal_snapshots@;
        let result = accept_update(&mut self.terminal_snapshots, session, update);
        proof {
            let after = self.terminal_snapshots@;
            assert(old(self)@.update_objection(session, update) == accept_objection(
                before,
                session,
                update@,
            ));
            if result is Err {
                assert(terminal_views(after) =~= terminal_views(before));
            } else {
                assert(terminal_views(after) =~= terminal_views(before).insert(
                    session.0,
                    result->Ok_0@,
                ));
            }
        }
        result
    }

    /// Takes the response to a request for a whole terminal.
    pub fn accept_snapshot(&mut self, session: TerminalSessionId, response: Response) -> (result:
        Result<TerminalSnapshot, CoreCommandError>)
        ensures
            match response {
                Response::Snapshot(Some(update)) => match old(self)@.update_objection(
                    session,
                    update,
                ) {
                    Some(error) => result is Err && result->Err_0@ == CommandErrorView::Message(
                        error.spec_message(),
                    ) && final(self)@ == old(self)@,
                    None => result is Ok && old(self)@.updates_terminal(
                        session,
                        update,
                        result->Ok_0@,
                    ) && final(self)@ == old(self)@.with_terminal(session, result->Ok_0@),
                },
                Response::Snapshot(None) => result is Err && result->Err_0@
                    == CommandErrorView::Message(
                    "Resident Core omitted an unconditional snapshot"@,
                ) && final(self)@ == old(self)@,
                Response::Error(error) => result is Err && result->Err_0@
                    == CommandErrorView::Message(error@) && final(self)@ == old(self)@,
                _ => rejects(result, Operation::Snapshot, response) && final(self)@ == old(self)@,
            },
    {
        match response {
            Response::Snapshot(Some(update)) => match self.accept_update(session, update) {
                Ok(snapshot) => Ok(snapshot),
                Err(error) => Err(CoreCommandError::Message(error.message())),
            },
            Response::Snapshot(None) => Err(
                CoreCommandError::Message(
                    "Resident Core omitted an unconditional snapshot".to_owned(),
                ),
            ),
            Response::Error(error) => Err(CoreCommandError::Message(error)),
            response => rejected(Operation::Snapshot, &response),
        }
    }

    /// How to learn what a terminal has become since `revision`.
    pub fn plan_snapshot_since(&self, session: TerminalSessionId, revision: u64) -> (plan:
        SincePlan)
        ensures
            if self@.terminals.contains_key(session.0) {
                if self@.terminals[session.0].revision != revision {
                    plan is Known && plan->Known_0@ == self@.terminals[session.0]
                } else {
                    plan == SincePlan::Ask(Some(revision))
                }
            } else {
                plan == SincePlan::Ask(None)
            },
    {
        match self.terminal_snapshots.get(session.0) {
            Some(snapshot) => if snapshot.revision != revision {
                SincePlan::Known(snapshot.clone())
            } else {
                SincePlan::Ask(Some(revision))
            },
            None => SincePlan::Ask(None),
        }
    }

    /// Takes the response to a request for what has changed.
    pub fn accept_snapshot_since(&mut self, session: TerminalSessionId, response: Response) -> (
    result: Result<SinceReply, CoreCommandError>)
        ensures
            match response {
                Response::Snapshot(Some(update)) => match old(self)@.update_objection(
                    session,
                    update,
                ) {
                    Some(_) => result is Ok && result->Ok_0 == SinceReply::Recover && final(self)@
                        == old(self)@,
                    None => match result {
                        Ok(SinceReply::Changed(snapshot)) => old(self)@.updates_terminal(
                            session,
                            update,
                            snapshot@,
                        ) && final(self)@ == old(self)@.with_terminal(session, snapshot@),
                        _ => false,
                    },
                },
                Response::Snapshot(None) => result is Ok && result->Ok_0 == SinceReply::Unchanged
                    && final(self)@ == old(self)@,
                Response::Error(error) => result is Err && result->Err_0@
                    == CommandErrorView::Message(error@) && final(self)@ == old(self)@,
                _ => rejects(result, Operation::ConditionalSnapshot, response) && final(self)@ == old(self)@,
            },
    {
        match response {
            Response::Snapshot(Some(update)) => match self.accept_update(session, update) {
                Ok(snapshot) => Ok(SinceReply::Changed(snapshot)),
                Err(_) => Ok(SinceReply::Recover),
            },
            Response::Snapshot(None) => Ok(SinceReply::Unchanged),
            Response::Error(error) => Err(CoreCommandError::Message(error)),
            response => rejected(Operation::ConditionalSnapshot, &response),
        }
    }

    /// Takes the response to a request for a whole terminal after an update that
    /// did not fit.
    pub fn accept_recovery(&mut self, session: TerminalSessionId, response: Response) -> (result:
        Result<TerminalSnapshot, CoreCommandError>)
        ensures
            match response {
                Response::Snapshot(Some(update)) => match old(self)@.update_objection(
                    session,
                    update,
                ) {
                    Some(error) => result is Err && result->Err_0@ == CommandErrorView::Message(
                        error.spec_message(),
                    ) && final(self)@ == old(self)@,
                    None => result is Ok && old(self)@.updates_terminal(
                        session,
                        update,
                        result->Ok_0@,
                    ) && final(self)@ == old(self)@.with_terminal(session, result->Ok_0@),
                },
                Response::Error(error) => result is Err && result->Err_0@
                    == CommandErrorView::Message(error@) && final(self)@ == old(self)@,
                _ => rejects(result, Operation::RecoverySnapshot, response) && final(self)@ == old(
                    self,
                )@,
            },
    {
        match response {
            Response::Snapshot(Some(update)) => match self.accept_update(session, update) {
                Ok(snapshot) => Ok(snapshot),
                Err(error) => Err(CoreCommandError::Message(error.message())),
            },
            Response::Error(error) => Err(CoreCommandError::Message(error)),
            response => rejected(Operation::RecoverySnapshot, &response),
        }
    }

    /// Takes the hierarchy.
    pub fn accept_core_snapshot(&mut self, snapshot: CoreSnapshot)
        ensures
            final(self)@ == old(self)@.with_hierarchy(snapshot@),
    {
        let keys = session_keys(&snapshot.terminal_sessions);
        let ghost before = self@;
        let ghost sessions = session_set(snapshot@.sessions);
        self.terminal_snapshots.retain(&keys);
        self.control_leases.retain(&keys);
        let stays = match self.active {
            Some(session) => crate::table::contains_key(&keys, session.0),
            None => false,
        };
        proof {
            assert(self@.terminals =~= before.terminals.restrict(sessions));
            if self.active is Some {
                let session = self.active->0;
                assert(keys@.contains(session.0) == keys@.to_set().contains(session.0));
            }
        }
        if !stays {
            self.active =
            if snapshot.terminal_sessions.len() > 0 {
                Some(snapshot.terminal_sessions[0].id)
            } else {
                None
            };
        }
        self.core_snapshot = snapshot;
    }

    /// Takes the response to a request for the hierarchy.
    pub fn accept_hierarchy(&mut self, response: Response) -> (result: Result<
        CoreSnapshot,
        CoreCommandError,
    >)
        ensures
            match response@ {
                ResponseView::CoreSnapshot(hierarchy) => result is Ok && result->Ok_0@ == hierarchy
                    && final(self)@ == old(self)@.with_hierarchy(hierarchy),
                ResponseView::Error(error) => result is Err && result->Err_0@
                    == CommandErrorView::Message(error) && final(self)@ == old(self)@,
                _ => rejects(result, Operation::Hierarchy, response) && final(self)@ == old(self)@,
            },
    {
        match response {
            Response::CoreSnapshot(snapshot) => {
                let copy = snapshot.clone();
                self.accept_core_snapshot(snapshot);
                Ok(copy)
            },
            Response::Error(error) => Err(CoreCommandError::Message(error)),
            response => rejected(Operation::Hierarchy, &response),
        }
    }

    /// Takes the response to a command on the hierarchy.
    pub fn accept_outcome(&mut self, response: Response) -> (result: Result<
        CoreCommandOutcome,
        CoreCommandError,
    >)
        ensures
            match response@ {
                ResponseView::CoreCommandAccepted(outcome) => {
                    let updated = old(self)@.with_hierarchy(outcome.snapshot);
                    &&& result is Ok && result->Ok_0@ == outcome
                    &&& final(self)@ == (ClientView {
                        leases: filed_leases(updated.leases, outcome.control_leases),
                        ..updated
                    })
                },
                ResponseView::CoreCommandRejected(error) => result is Err && result->Err_0@
                    == CommandErrorView::Rejected(error) && final(self)@ == old(self)@,
                ResponseView::Error(error) => result is Err && result->Err_0@
                    == CommandErrorView::Message(error) && final(self)@ == old(self)@,
                _ => rejects(result, Operation::Command, response) && final(self)@ == old(self)@,
            },
    {
        match response {
            Response::CoreCommandAccepted(outcome) => {
                self.accept_core_snapshot(outcome.snapshot.clone());
                file_leases(&mut self.control_leases, &outcome.control_leases);
                Ok(outcome)
            },
            Response::CoreCommandRejected(error) => Err(CoreCommandError::Rejected(error)),
            Response::Error(error) => Err(CoreCommandError::Message(error)),
            response => rejected(Operation::Command, &response),
        }
    }

    /// Takes a semantic event.
    pub fn accept_semantic_event(&mut self, event: &SemanticEvent)
        ensures
            final(self)@ == match event@.kind {
                SemanticEventKindView::ControlLeaseChanged { lease } => old(self)@.with_lease(
                    lease,
                ),
                _ => old(self)@,
            },
    {
        if let SemanticEventKind::ControlLeaseChanged { lease } = &event.kind {
            self.control_leases.insert(lease.terminal_session_id.0, *lease);
        }
    }
}

/// How to learn what a terminal has become.
pub enum SincePlan {
    Known(TerminalSnapshot),
    Ask(Option<u64>),
}

/// What a terminal has become.
pub enum SinceReply {
    Changed(TerminalSnapshot),
    Unchanged,
    /// What was sent does not fit: ask for the whole terminal.
    Recover,
}

/// Takes the response to a request to stop.
pub fn accept_stop(response: Response) -> (result: Result<(), CoreCommandError>)
    ensures
        reply_result(
            result,
            match response@ {
                ResponseView::Ack => Some(Ok(())),
                ResponseView::Error(error) => Some(Err(CommandErrorView::Message(error))),
                _ => None,
            },
            Operation::Stop,
            response,
        ),
{
    match response {
        Response::Ack => Ok(()),
        Response::Error(error) => Err(CoreCommandError::Message(error)),
        response => rejected(Operation::Stop, &response),
    }
}

/// After the hierarchy arrived, what the client keeps is of sessions in it,
/// and the active session is one of them where there is any.
pub proof fn law_clients_keep_live_sessions(client: ClientView, hierarchy: HierarchyView, id: u64)
    ensures
        client.with_hierarchy(hierarchy).leases.contains_key(id) ==> session_set(
            hierarchy.sessions,
        ).contains(id),
        client.with_hierarchy(hierarchy).terminals.contains_key(id) ==> session_set(
            hierarchy.sessions,
        ).contains(id),
        client.with_hierarchy(hierarchy).active is None <==> hierarchy.sessions.len() == 0,
        client.with_hierarchy(hierarchy).active matches Some(session) ==> session_set(
            hierarchy.sessions,
        ).contains(session.0),
{
    let sessions = hierarchy.sessions;
    if sessions.len() > 0 {
        assert(sessions[0].id.0 == sessions[0].id.0);
        assert(session_set(sessions).contains(sessions[0].id.0));
    }
    if let Some(active) = client.active {
        if session_set(sessions).contains(active.0) {
            let i = choose|i: int|
                0 <= i < sessions.len() && (#[trigger] sessions[i]).id.0 == active.0;
            assert(sessions.len() > 0);
        }
    }
}

/// A client goes on with the session that is active for as long as it is listed,
/// and else with the first that is. Of a session that is listed it keeps the lease
/// and the terminal as they are.
pub proof fn law_clients_go_on_with_their_session(
    client: ClientView,
    hierarchy: HierarchyView,
    session: int,
)
    requires
        0 <= session < hierarchy.sessions.len(),
    ensures
        ({
            let after = client.with_hierarchy(hierarchy);
            let id = hierarchy.sessions[session].id;
            &&& after.hierarchy == hierarchy
            &&& after.client_id == client.client_id
            &&& client.active == Some(id) ==> after.active == Some(id)
            &&& client.active is None || (forall|i: int|
                0 <= i < hierarchy.sessions.len() ==> Some((#[trigger] hierarchy.sessions[i]).id)
                    != client.active) ==> after.active == Some(hierarchy.sessions[0].id)
            &&& after.leases.contains_key(id.0) == client.leases.contains_key(id.0)
            &&& client.leases.contains_key(id.0) ==> after.leases[id.0] == client.leases[id.0]
            &&& after.terminals.contains_key(id.0) == client.terminals.contains_key(id.0)
            &&& client.terminals.contains_key(id.0) ==> after.terminals[id.0]
                == client.terminals[id.0]
        }),
{
    let sessions = hierarchy.sessions;
    assert(session_set(sessions).contains(sessions[session].id.0));
    if let Some(active) = client.active {
        if session_set(sessions).contains(active.0) {
            let i = choose|i: int|
                0 <= i < sessions.len() && (#[trigger] sessions[i]).id.0 == active.0;
            assert(Some(sessions[i].id) == client.active);
        }
    }
}

/// Leases are filed under their sessions: the last that is told of a session is
/// its lease, and of the others what was known stays.
pub proof fn law_the_last_lease_counts(
    known: Map<u64, ControlLease>,
    leases: Seq<ControlLease>,
    id: u64,
    last: int,
)
    requires
        forall|i: int|
            last < i < leases.len() && 0 <= i ==> (#[trigger] leases[i]).terminal_session_id.0
                != id,
        -1 <= last < leases.len(),
        last >= 0 ==> leases[last].terminal_session_id.0 == id,
    ensures
        last >= 0 ==> filed_leases(known, leases).contains_key(id) && filed_leases(
            known,
            leases,
        )[id] == leases[last],
        last < 0 ==> filed_leases(known, leases).contains_key(id) == known.contains_key(id)
            && filed_leases(known, leases)[id] == known[id],
    decreases leases.len(),
{
    if leases.len() > 0 && last < leases.len() - 1 {
        let shorter = leases.drop_last();
        assert(leases[leases.len() - 1].terminal_session_id.0 != id);
        assert forall|i: int| last < i < shorter.len() && 0 <= i implies (
        #[trigger] shorter[i]).terminal_session_id.0 != id by {
            assert(leases[i].terminal_session_id.0 != id);
        }
        law_the_last_lease_counts(known, shorter, id, last);
    }
}

/// A client that is denied control, or told a lease, knows the lease from then on,
/// and what it knows of other sessions stays.
pub proof fn law_clients_learn_leases(
    client: ClientView,
    lease: ControlLease,
    reason: ControlLeaseDenial,
    other: TerminalSessionId,
)
    ensures
        ({
            let denied = after_control(client, ResponseView::ControlLeaseDenied { reason, lease });
            let told = after_lease(client, ResponseView::ControlLease(lease));
            &&& denied == told
            &&& told.leases.contains_key(lease.terminal_session_id.0)
            &&& told.leases[lease.terminal_session_id.0] == lease
            &&& told.generation(lease.terminal_session_id) == Some(lease.generation)
            &&& other != lease.terminal_session_id ==> told.generation(other) == client.generation(
                other,
            )
            &&& ClientView { leases: client.leases, ..told } == client
            &&& after_control(client, ResponseView::Ack) == client
            &&& after_lease(client, ResponseView::Ack) == client
        }),
{
}

/// What was asked for succeeded where it is acknowledged, and a lease was told where
/// there is one; what was denied or went wrong is told as it is.
pub proof fn law_responses_mean_what_they_say(response: ResponseView)
    ensures
        acknowledged(response) == Some(Ok::<(), CommandErrorView>(())) <==> response is Ack,
        response matches ResponseView::ControlLeaseDenied { reason, lease } ==> acknowledged(
            response,
        ) == Some(
            Err::<(), CommandErrorView>(CommandErrorView::ControlLeaseDenied { reason, lease }),
        ),
        response matches ResponseView::Error(error) ==> acknowledged(response) == Some(
            Err::<(), CommandErrorView>(CommandErrorView::Message(error)),
        ) && told_lease(response) == Some(
            Err::<ControlLease, CommandErrorView>(CommandErrorView::Message(error)),
        ),
        response matches ResponseView::ControlLease(lease) ==> told_lease(response) == Some(
            Ok::<ControlLease, CommandErrorView>(lease),
        ),
        told_lease(response) is Some ==> response is ControlLease || response is Error,
        acknowledged(response) is Some ==> response is Ack || response is ControlLeaseDenied
            || response is Error,
{
}

/// A client enters with the hierarchy, the leases and the number of events that it
/// was told, and only where who answers speaks its protocol and knows the secret.
pub proof fn law_clients_enter_with_what_they_are_told(
    client: ClientView,
    sequence: u64,
    response: ResponseView,
    auth_secret: Seq<u8>,
    endpoint: Seq<char>,
    nonce: Seq<u8>,
)
    requires
        enters(client, sequence, response),
        accepts_handshake(response, auth_secret, endpoint, nonce),
    ensures
        ({
            &&& response matches ResponseView::Ready {
                version,
                proof_bytes,
                client_id,
                snapshot,
                leases,
                semantic_sequence,
            }
            &&& version == 8
            &&& proof_bytes == crate::crypto::hmac_sha256(
                auth_secret,
                super::auth::auth_message(endpoint, nonce),
            )
            &&& client.client_id == client_id
            &&& client.hierarchy == snapshot
            &&& sequence == semantic_sequence
            &&& client.active is None <==> snapshot.sessions.len() == 0
            &&& snapshot.sessions.len() > 0 ==> client.active == Some(snapshot.sessions[0].id)
            &&& leases.len() > 0 ==> client.leases[leases.last().terminal_session_id.0]
                == leases.last()
            &&& forall|id: u64| !#[trigger] client.terminals.contains_key(id)
        }),
{
}

/// A handshake that is not accepted fails for what the core speaks, for who it is,
/// or for what it says.
pub proof fn law_handshakes_fail_for_a_reason(error: HandshakeError, response: Response)
    requires
        fails_handshake(error, response),
    ensures
        response@ matches ResponseView::Ready { version, .. } ==> {
            &&& version == 8 ==> error == HandshakeError::Authentication
            &&& version != 8 ==> error == (HandshakeError::ProtocolMismatch { core: version })
        },
        response@ matches ResponseView::Error(message) ==> error is Refused
            && error->Refused_0@ == message,
        !(response@ is Ready || response@ is Error) ==> error is Unexpected,
{
}

/// An update that builds on another needs a terminal that is known, at the revision
/// that it builds on and of the same size; one that is whole needs nothing but to be
/// valid. What is known of the others stays.
pub proof fn law_updates_need_what_they_build_on(
    client: ClientView,
    session: TerminalSessionId,
    update: TerminalUpdate,
    terminal: TerminalSnapshotView,
    other: u64,
)
    ensures
        ({
            let known = client.terminals.contains_key(session.0);
            let before = client.terminals[session.0];
            let objection = client.update_objection(session, update);
            let fits = update_objection(
                update.base_revision is None,
                update.cols,
                update.rows,
                update.cursor,
                update.dirty_rows@,
                update@.cells,
            ) is None;
            let after = client.with_terminal(session, terminal);
            &&& update.base_revision is None ==> (objection is None <==> fits)
            &&& update.base_revision is Some ==> (objection is None <==> {
                &&& known
                &&& fits
                &&& update.base_revision == Some(before.revision)
                &&& (update.cols, update.rows) == (before.cols, before.rows)
            })
            &&& update.base_revision is Some && !known ==> objection == Some(
                AcceptError::DeltaBeforeFull,
            )
            &&& after.terminals.contains_key(session.0) && after.terminals[session.0] == terminal
            &&& other != session.0 ==> after.terminals.contains_key(other)
                == client.terminals.contains_key(other) && after.terminals[other]
                == client.terminals[other]
            &&& ClientView { terminals: client.terminals, ..after } == client
        }),
{
}

/// A denial says why, who controls the session if anyone does, and under which
/// generation.
pub proof fn law_denials_say_who_controls(
    reason: ControlLeaseDenial,
    lease: ControlLease,
    client: UiClientId,
)
    ensures
        lease.controller == Some(client) ==> denial_text(reason, lease)
            == "Control Lease denied ("@ + denial_name(reason) + "); controller "@ + (
        "Some(UiClientId("@ + decimal_chars(client.0 as nat) + "))"@) + ", generation "@
            + decimal_chars(lease.generation as nat),
        lease.controller is None ==> denial_text(reason, lease) == "Control Lease denied ("@
            + denial_name(reason) + "); controller "@ + "None"@ + ", generation "@ + decimal_chars(
            lease.generation as nat,
        ),
        denial_name(ControlLeaseDenial::HeldByOther) == "HeldByOther"@,
        denial_name(ControlLeaseDenial::NoController) == "NoController"@,
        denial_name(ControlLeaseDenial::StaleGeneration) == "StaleGeneration"@,
        denial_name(ControlLeaseDenial::TargetUnavailable) == "TargetUnavailable"@,
{
}

} // verus!
