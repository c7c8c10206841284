//! The two ends of a connection to the Resident Core: how a client comes to
//! it, and how each request of a client is served. What only the thread of the
//! terminals knows is asked of it in between.

use super::auth::{proof_of, server_proof};
use super::client::{accepts_handshake, enters, fails_handshake, CoreClient, HandshakeError};
use super::endpoint::CoreEndpoint;
use super::events::event_views;
use super::protocol::{
    Request, Response, ResponseView, SemanticEvent, UiClientId, PROTOCOL_VERSION,
};
use super::server::{
    client_action, greet, mismatch_text, settles_command, settles_hierarchy, told, worker_response,
    ClientAction, ResidentCore, ResidentView, WorkerRequest, WorkerResponse, MAX_INPUT_BYTES,
};
use crate::core_model::CoreSnapshot;
use vstd::prelude::*;
use vstd::string::*;

verus! {

/// How a connection ends.
#[derive(Clone, Copy, Debug, PartialEq, Eq, Structural)]
pub enum ClientOutcome {
    Disconnected,
    StopResidentCore,
}

/// What a client is told, what all are told, and whether the connection then
/// ends.
pub struct ClientAnswer {
    pub response: Response,
    pub events: Vec<SemanticEvent>,
    pub outcome: Option<ClientOutcome>,
}

/// What an answer of the thread of the terminals is for.
#[derive(Clone, Copy, Debug, PartialEq, Eq, Structural)]
pub enum Purpose {
    /// To be told to the client as it is.
    Telling { outcome: Option<ClientOutcome> },
    Hierarchy,
    Command { client: UiClientId },
}

/// A question to the thread of the terminals.
pub struct Asking {
    purpose: Purpose,
}

/// What a request leads to.
pub enum ClientStep {
    Answer(ClientAnswer),
    Ask(WorkerRequest, Asking),
}

/// Whether a client is answered at once, and nothing else happens.
pub open spec fn answers(
    step: ClientStep,
    response: ResponseView,
    outcome: Option<ClientOutcome>,
) -> bool {
    match step {
        ClientStep::Answer(answer) => answer.response@ == response && answer.events@.len() == 0
            && answer.outcome == outcome,
        _ => false,
    }
}

/// Whether a question leads on.
pub open spec fn asks(step: ClientStep, request: WorkerRequest, purpose: Purpose) -> bool {
    step matches ClientStep::Ask(actual, asking) && actual == request && asking.purpose()
        == purpose
}

/// Whether what a controller of a session may ask for is served: the lease
/// decides.
pub open spec fn serves_controlled(
    step: ClientStep,
    core: ResidentView,
    client: UiClientId,
    session: crate::core_model::TerminalSessionId,
    generation: u64,
    request: WorkerRequest,
) -> bool {
    match core.control.refusal(client, session, generation) {
        Some(refusal) => answers(step, refusal.spec_response(session), None),
        None => asks(step, request, Purpose::Telling { outcome: None }),
    }
}

/// Whether a session changes hands, and all are told, unless that is refused.
pub open spec fn hands_over(
    step: ClientStep,
    before: ResidentView,
    after: ResidentView,
    session: crate::core_model::TerminalSessionId,
    controller: UiClientId,
    refusal: Option<super::control::ControlRefusal>,
) -> bool {
    match refusal {
        Some(refusal) => after == before && answers(step, refusal.spec_response(session), None),
        None => {
            &&& after == before.handed_to(session, controller)
            &&& match step {
                ClientStep::Answer(answer) => {
                    &&& answer.response@ == ResponseView::ControlLease(
                        after.control.leases[session.0],
                    )
                    &&& event_views(answer.events@) == seq![after.handover_event(session)]
                    &&& answer.outcome is None
                },
                _ => false,
            }
        },
    }
}

/// Whether a request after the handshake is served.
pub open spec fn serves_client(
    step: ClientStep,
    before: ResidentView,
    after: ResidentView,
    client: UiClientId,
    request: Request,
) -> bool {
    match request {
        Request::Hello { .. } => after == before && answers(
            step,
            ResponseView::Error("UI Client already completed its handshake"@),
            None,
        ),
        Request::Input { terminal_session_id, lease_generation, bytes } => after == before && if
            bytes@.len() > MAX_INPUT_BYTES {
            answers(step, ResponseView::Error("terminal input command exceeds 1 MiB"@), None)
        } else {
            serves_controlled(
                step,
                before,
                client,
                terminal_session_id,
                lease_generation,
                WorkerRequest::Input { terminal_session_id, bytes },
            )
        },
        Request::Paste { terminal_session_id, lease_generation, bytes } => after == before && if
            bytes@.len() > MAX_INPUT_BYTES {
            answers(step, ResponseView::Error("terminal paste command exceeds 1 MiB"@), None)
        } else {
            serves_controlled(
                step,
                before,
                client,
                terminal_session_id,
                lease_generation,
                WorkerRequest::Paste { terminal_session_id, bytes },
            )
        },
        Request::Resize { terminal_session_id, lease_generation, size } => after == before
            && serves_controlled(
            step,
            before,
            client,
            terminal_session_id,
            lease_generation,
            WorkerRequest::Resize { terminal_session_id, size },
        ),
        Request::Snapshot { terminal_session_id, since } => after == before && asks(
            step,
            WorkerRequest::Snapshot { terminal_session_id, since },
            Purpose::Telling { outcome: None },
        ),
        Request::CoreSnapshot => after == before && asks(
            step,
            WorkerRequest::CoreSnapshot,
            Purpose::Hierarchy,
        ),
        Request::ApplyCoreCommand { expected_revision, command } => after == before && asks(
            step,
            WorkerRequest::ApplyCoreCommand { expected_revision, command },
            Purpose::Command { client },
        ),
        Request::ControlLease { terminal_session_id } => after == before && answers(
            step,
            if before.control.leases.contains_key(terminal_session_id.0) {
                ResponseView::ControlLease(before.control.leases[terminal_session_id.0])
            } else {
                ResponseView::Error(super::control::missing_session(terminal_session_id))
            },
            None,
        ),
        Request::TransferControl { terminal_session_id, lease_generation, target } => hands_over(
            step,
            before,
            after,
            terminal_session_id,
            target,
            before.control.transfer_refusal(client, terminal_session_id, lease_generation, target),
        ),
        Request::AcquireControl { terminal_session_id, lease_generation } => hands_over(
            step,
            before,
            after,
            terminal_session_id,
            client,
            before.control.acquire_refusal(terminal_session_id, lease_generation),
        ),
        Request::Detach => after == before && answers(
            step,
            ResponseView::Ack,
            Some(ClientOutcome::Disconnected),
        ),
        Request::StopResidentCore => after == before && asks(
            step,
            WorkerRequest::Stop,
            Purpose::Telling { outcome: Some(ClientOutcome::StopResidentCore) },
        ),
    }
}

fn answer(response: Response, outcome: Option<ClientOutcome>) -> (step: ClientStep)
    ensures
        answers(step, response@, outcome),
{
    ClientStep::Answer(ClientAnswer { response, events: Vec::new(), outcome })
}

fn ask(request: WorkerRequest, purpose: Purpose) -> (step: ClientStep)
    ensures
        asks(step, request, purpose),
{
    ClientStep::Ask(request, Asking { purpose })
}

fn answer_handover(handover: (Response, Option<SemanticEvent>)) -> (step: ClientStep)
    ensures
        match step {
            ClientStep::Answer(answer) => answer.response == handover.0 && event_views(
                answer.events@,
            ) == match handover.1 {
                Some(event) => seq![event@],
                None => Seq::empty(),
            } && (handover.1 is None ==> answer.events@.len() == 0) && answer.outcome is None,
            _ => false,
        },
{
    let mut events: Vec<SemanticEvent> = Vec::new();
    let (response, event) = handover;
    if let Some(event) = event {
        events.push(event);
    }
    proof {
        assert(event_views(events@) =~= match handover.1 {
            Some(event) => seq![event@],
            None => Seq::empty(),
        });
    }
    ClientStep::Answer(ClientAnswer { response, events, outcome: None })
}

/// Serves a request after the handshake.
pub fn serve_client(core: &mut ResidentCore, client: UiClientId, request: Request) -> (step:
    ClientStep)
    ensures
        serves_client(step, old(core)@, final(core)@, client, request),
        old(core)@.control.well_formed() ==> final(core)@.control.well_formed(),
{
    match client_action(request) {
        ClientAction::Reply(response) => answer(response, None),
        ClientAction::Controlled { terminal_session_id, lease_generation, request } => {
            match core.authorize(client, terminal_session_id, lease_generation) {
                Ok(()) => ask(request, Purpose::Telling { outcome: None }),
                Err(response) => answer(response, None),
            }
        },
        ClientAction::Ask(request) => ask(request, Purpose::Telling { outcome: None }),
        ClientAction::Hierarchy => ask(WorkerRequest::CoreSnapshot, Purpose::Hierarchy),
        ClientAction::Apply { expected_revision, command } => ask(
            WorkerRequest::ApplyCoreCommand { expected_revision, command },
            Purpose::Command { client },
        ),
        ClientAction::Lease { terminal_session_id } => answer(
            core.control_lease(terminal_session_id),
            None,
        ),
        ClientAction::Transfer { terminal_session_id, lease_generation, target } => {
            let handover = core.transfer_control(
                client,
                terminal_session_id,
                lease_generation,
                target,
            );
            answer_handover(handover)
        },
        ClientAction::Acquire { terminal_session_id, lease_generation } => {
            let handover = core.acquire_control(client, terminal_session_id, lease_generation);
            answer_handover(handover)
        },
        ClientAction::Detach => answer(Response::Ack, Some(ClientOutcome::Disconnected)),
        ClientAction::Stop => ask(
            WorkerRequest::Stop,
            Purpose::Telling { outcome: Some(ClientOutcome::StopResidentCore) },
        ),
    }
}

/// What a client is told of the hierarchy.
pub open spec fn told_hierarchy(
    settled: Result<(CoreSnapshot, Vec<super::protocol::ControlLease>), String>,
) -> ResponseView {
    match settled {
        Ok((snapshot, _)) => ResponseView::CoreSnapshot(snapshot@),
        Err(error) => ResponseView::Error(error@),
    }
}

/// Whether an answer of the thread of the terminals is put to its purpose.
pub open spec fn finishes(
    answer: ClientAnswer,
    before: ResidentView,
    after: ResidentView,
    purpose: Purpose,
    result: Result<WorkerResponse, String>,
) -> bool {
    match purpose {
        Purpose::Telling { outcome } => {
            &&& after == before
            &&& answer.response@ == told(result)
            &&& answer.events@.len() == 0
            &&& answer.outcome == outcome
        },
        Purpose::Hierarchy => {
            &&& exists|settled: Result<(CoreSnapshot, Vec<super::protocol::ControlLease>), String>|
                #[trigger] settles_hierarchy(before, after, result, settled)
                    && answer.response@ == told_hierarchy(settled)
            &&& answer.events@.len() == 0
            &&& answer.outcome is None
        },
        Purpose::Command { client } => {
            &&& settles_command(
                before,
                after,
                client,
                result,
                answer.response@,
                event_views(answer.events@),
            )
            &&& answer.outcome is None
        },
    }
}

impl Asking {
    pub closed spec fn purpose(self) -> Purpose {
        self.purpose
    }

    /// Answers the client after the thread of the terminals has answered.
    pub fn finish(self, core: &mut ResidentCore, result: Result<WorkerResponse, String>) -> (answer:
        ClientAnswer)
        requires
            old(core)@.control.well_formed(),
        ensures
            finishes(answer, old(core)@, final(core)@, self.purpose(), result),
            final(core)@.control.well_formed(),
    {
        match self.purpose {
            Purpose::Telling { outcome } => ClientAnswer {
                response: worker_response(result),
                events: Vec::new(),
                outcome,
            },
            Purpose::Hierarchy => {
                let ghost before = core@;
                let settled = core.settle_hierarchy(result);
                proof {
                    assert(settles_hierarchy(before, core@, result, settled));
                }
                let response = match settled {
                    Ok((snapshot, _)) => Response::CoreSnapshot(snapshot),
                    Err(error) => Response::Error(error),
                };
                ClientAnswer { response, events: Vec::new(), outcome: None }
            },
            Purpose::Command { client } => {
                let (response, events) = core.settle_command(client, result);
                ClientAnswer { response, events, outcome: None }
            },
        }
    }
}

/// A client that has been let in and waits for the hierarchy.
pub struct Greeting {
    nonce: [u8; 32],
    client: UiClientId,
    semantic_sequence: u64,
}

/// What the first request of a connection leads to.
pub enum GreetStep {
    /// The client is told, and the connection ends.
    Refuse(Response),
    /// All are told, and the thread of the terminals is asked for the
    /// hierarchy.
    Ask(Vec<SemanticEvent>, Greeting),
}

/// Lets a client in that begins with a handshake of the same protocol.
pub fn greet_client(core: &mut ResidentCore, first: Option<Request>) -> (step: GreetStep)
    requires
        old(core)@.control.well_formed(),
    ensures
        match first {
            Some(Request::Hello { version, nonce }) => if version == PROTOCOL_VERSION {
                match step {
                    GreetStep::Ask(events, greeting) => {
                        &&& greeting.nonce() == nonce
                        &&& greeting.client() == UiClientId(old(core)@.next_client_id)
                        &&& greeting.semantic_sequence() == final(core)@.semantic_sequence
                        &&& final(core)@.control == old(core)@.control.attached(greeting.client())
                        &&& old(core)@.tells_leases(event_views(events@), final(core)@)
                        &&& final(core)@.terminal_sequence == old(core)@.terminal_sequence
                        &&& final(core)@.next_client_id == old(core)@.next_client_id.wrapping_add(1)
                    },
                    _ => false,
                }
            } else {
                step matches GreetStep::Refuse(response) && response@ == ResponseView::Error(
                    mismatch_text(version),
                ) && final(core)@ == old(core)@
            },
            _ => step matches GreetStep::Refuse(response) && response@ == ResponseView::Error(
                "UI Client must begin with a protocol handshake"@,
            ) && final(core)@ == old(core)@,
        },
        final(core)@.control.well_formed(),
{
    match greet(first) {
        Err(response) => GreetStep::Refuse(response),
        Ok(nonce) => {
            let (client, events) = core.attach_client();
            let semantic_sequence = core.semantic_sequence();
            GreetStep::Ask(events, Greeting { nonce, client, semantic_sequence })
        },
    }
}

/// Whether a client that was let in is told `response`: the hierarchy with the
/// leases, under a proof that the core knows the secret.
pub open spec fn welcomes(
    response: ResponseView,
    greeting: Greeting,
    auth_secret: Seq<u8>,
    endpoint: Seq<char>,
    settled: Result<(CoreSnapshot, Vec<super::protocol::ControlLease>), String>,
) -> bool {
    match settled {
        Ok((snapshot, leases)) => response == (ResponseView::Ready {
            version: PROTOCOL_VERSION,
            proof_bytes: proof_of(auth_secret, endpoint, greeting.nonce()@),
            client_id: greeting.client(),
            snapshot: snapshot@,
            leases: leases@,
            semantic_sequence: greeting.semantic_sequence(),
        }),
        Err(error) => response == ResponseView::Error(error@),
    }
}

impl Greeting {
    pub closed spec fn nonce(self) -> [u8; 32] {
        self.nonce
    }

    pub closed spec fn client(self) -> UiClientId {
        self.client
    }

    pub closed spec fn semantic_sequence(self) -> u64 {
        self.semantic_sequence
    }

    pub fn client_id(&self) -> (client: UiClientId)
        ensures
            client == self.client(),
    {
        self.client
    }

    /// Answers the handshake; the connection goes on only where the hierarchy
    /// is known.
    pub fn finish(
        &self,
        core: &mut ResidentCore,
        auth_secret: &[u8; 32],
        endpoint: &CoreEndpoint,
        result: Result<WorkerResponse, String>,
    ) -> (answer: ClientAnswer)
        requires
            old(core)@.control.well_formed(),
        ensures
            exists|settled: Result<(CoreSnapshot, Vec<super::protocol::ControlLease>), String>|
                #[trigger] settles_hierarchy(old(core)@, final(core)@, result, settled)
                    && welcomes(answer.response@, *self, auth_secret@, endpoint@, settled),
            answer.events@.len() == 0,
            answer.outcome == if answer.response@ is Ready {
                None
            } else {
                Some(ClientOutcome::Disconnected)
            },
            answer.response@ is Ready <==> result matches Ok(WorkerResponse::CoreSnapshot(_)),
            final(core)@.control.well_formed(),
    {
        let ghost before = core@;
        let settled = core.settle_hierarchy(result);
        proof {
            assert(settles_hierarchy(before, core@, result, settled));
        }
        match settled {
            Ok((snapshot, leases)) => ClientAnswer {
                response: Response::Ready {
                    version: PROTOCOL_VERSION,
                    proof_bytes: server_proof(auth_secret, endpoint, &self.nonce),
                    client_id: self.client,
                    snapshot,
                    leases,
                    semantic_sequence: self.semantic_sequence,
                },
                events: Vec::new(),
                outcome: None,
            },
            Err(error) => ClientAnswer {
                response: Response::Error(error),
                events: Vec::new(),
                outcome: Some(ClientOutcome::Disconnected),
            },
        }
    }
}

/// A core and a client that know the same secret and speak of the same endpoint
/// come together.
pub proof fn law_welcomes_are_accepted(
    response: ResponseView,
    greeting: Greeting,
    auth_secret: Seq<u8>,
    endpoint: Seq<char>,
    settled: Result<(CoreSnapshot, Vec<super::protocol::ControlLease>), String>,
)
    requires
        settled is Ok,
        welcomes(response, greeting, auth_secret, endpoint, settled),
    ensures
        accepts_handshake(response, auth_secret, endpoint, greeting.nonce()@),
{
}

/// Nothing that a client without control of a session asks for reaches the
/// session's process.
pub proof fn law_terminals_obey_their_controllers(
    step: ClientStep,
    before: ResidentView,
    after: ResidentView,
    client: UiClientId,
    request: Request,
)
    requires
        serves_client(step, before, after, client, request),
        step is Ask,
    ensures
        match step->Ask_0 {
            WorkerRequest::Input { terminal_session_id, .. } =>
                before.control.leases.contains_key(terminal_session_id.0)
                    && before.control.leases[terminal_session_id.0].controller == Some(client),
            WorkerRequest::Paste { terminal_session_id, .. } =>
                before.control.leases.contains_key(terminal_session_id.0)
                    && before.control.leases[terminal_session_id.0].controller == Some(client),
            WorkerRequest::Resize { terminal_session_id, .. } =>
                before.control.leases.contains_key(terminal_session_id.0)
                    && before.control.leases[terminal_session_id.0].controller == Some(client),
            _ => true,
        },
        after == before,
{
}

/// How long a client tries to come to a core that should be there, in
/// milliseconds.
pub const QUICK_CONNECT_MILLIS: u64 = 100;

/// How long a client tries to come to a core that it has started.
pub const STARTED_CONNECT_MILLIS: u64 = 10000;

/// How long a client waits between two tries.
pub const CONNECT_RETRY_MILLIS: u64 = 10;

/// How a client comes to a core.
#[derive(Clone, Copy, Debug, PartialEq, Eq, Structural)]
pub enum Approach {
    /// Try for so long.
    Connect { timeout_millis: u64 },
    /// Start a core, then try for so long.
    StartThenConnect { timeout_millis: u64 },
    /// Nothing more can be tried.
    GiveUp,
}

/// What is tried after `failed` tries have failed.
pub fn approach(failed: u64) -> (next: Approach)
    ensures
        next == match failed {
            0 => Approach::Connect { timeout_millis: QUICK_CONNECT_MILLIS },
            1 => Approach::StartThenConnect { timeout_millis: STARTED_CONNECT_MILLIS },
            _ => Approach::GiveUp,
        },
        next is GiveUp <==> failed >= 2,
        next is StartThenConnect <==> failed == 1,
        next matches Approach::Connect { timeout_millis } ==> timeout_millis == 100,
        next matches Approach::StartThenConnect { timeout_millis } ==> timeout_millis == 10000,
{
    match failed {
        0 => Approach::Connect { timeout_millis: QUICK_CONNECT_MILLIS },
        1 => Approach::StartThenConnect { timeout_millis: STARTED_CONNECT_MILLIS },
        _ => Approach::GiveUp,
    }
}

/// A client on its way to a core.
pub struct Connecting {
    deadline: u64,
}

impl Connecting {
    pub closed spec fn deadline(self) -> u64 {
        self.deadline
    }

    /// Begins at `now`, in milliseconds.
    pub fn begin(now: u64, timeout_millis: u64) -> (connecting: Self)
        requires
            now + timeout_millis <= u64::MAX,
        ensures
            connecting.deadline() == now + timeout_millis,
    {
        Connecting { deadline: now + timeout_millis }
    }

    /// How long a read or a write may take: what is left, and a moment at least.
    pub fn patience(&self, now: u64) -> (millis: u64)
        ensures
            millis == if now + 1 >= self.deadline() {
                1
            } else {
                self.deadline() - now
            },
    {
        let left = self.deadline.saturating_sub(now);
        if left > 1 {
            left
        } else {
            1
        }
    }

    /// Whether the time is over.
    pub fn is_over(&self, now: u64) -> (over: bool)
        ensures
            over == (now >= self.deadline()),
    {
        now >= self.deadline
    }

    /// What is said where there was nobody to connect to, unless there is time
    /// for another try.
    pub fn accept_refusal(&self, now: u64, error: &str) -> (failure: Option<String>)
        ensures
            match failure {
                Some(message) => now >= self.deadline() && message@ == "connect Resident Core: "@
                    + error@,
                None => now < self.deadline(),
            },
    {
        if !self.is_over(now) {
            return None;
        }
        let mut message = "connect Resident Core: ".to_owned();
        message.append(error);
        Some(message)
    }

    /// The first request of a connection.
    pub fn hello(nonce: [u8; 32]) -> (request: Request)
        ensures
            request == (Request::Hello { version: PROTOCOL_VERSION, nonce }),
    {
        Request::Hello { version: PROTOCOL_VERSION, nonce }
    }

    /// What a client keeps after the handshake, and the number of the last
    /// semantic event before it.
    pub fn finish(
        auth_secret: &[u8; 32],
        endpoint: &CoreEndpoint,
        nonce: &[u8; 32],
        received: Result<Option<Response>, String>,
    ) -> (result: Result<(CoreClient, u64), ConnectError>)
        ensures
            match received {
                Err(error) => result is Err && result->Err_0@ == ConnectErrorView::Said(
                    "receive Resident Core handshake: "@ + error@,
                ),
                Ok(None) => result is Err && result->Err_0@ == ConnectErrorView::Said(
                    "Resident Core disconnected during handshake"@,
                ),
                Ok(Some(response)) => {
                    &&& result is Ok <==> accepts_handshake(
                        response@,
                        auth_secret@,
                        endpoint@,
                        nonce@,
                    )
                    &&& match result {
                        Ok((client, sequence)) => enters(client@, sequence, response@),
                        Err(error) => error@ matches ConnectErrorView::Handshake(error)
                            && fails_handshake(error, response),
                    }
                },
            },
    {
        match received {
            Err(error) => {
                let mut message = "receive Resident Core handshake: ".to_owned();
                message.append(error.as_str());
                Err(ConnectError::Said(message))
            },
            Ok(None) => Err(
                ConnectError::Said("Resident Core disconnected during handshake".to_owned()),
            ),
            Ok(Some(response)) => match CoreClient::accept_handshake(
                auth_secret,
                endpoint,
                nonce,
                response,
            ) {
                Ok(accepted) => Ok(accepted),
                Err(error) => Err(ConnectError::Handshake(error)),
            },
        }
    }
}

/// Why a client did not come to its core.
pub enum ConnectError {
    Said(String),
    Handshake(HandshakeError),
}

pub enum ConnectErrorView {
    Said(Seq<char>),
    Handshake(HandshakeError),
}

impl View for ConnectError {
    type V = ConnectErrorView;

    open spec fn view(&self) -> ConnectErrorView {
        match *self {
            ConnectError::Said(message) => ConnectErrorView::Said(message@),
            ConnectError::Handshake(error) => ConnectErrorView::Handshake(error),
        }
    }
}

/// What the controller of a session asks of it reaches the session's process as it
/// was sent, up to a megabyte.
pub proof fn law_controllers_reach_their_terminals(
    step: ClientStep,
    before: ResidentView,
    after: ResidentView,
    client: UiClientId,
    request: Request,
)
    requires
        serves_client(step, before, after, client, request),
    ensures
        request matches Request::Input { terminal_session_id, lease_generation, bytes } ==> {
            let lease = before.control.leases[terminal_session_id.0];
            let controls = before.control.leases.contains_key(terminal_session_id.0)
                && lease.controller == Some(client) && lease.generation == lease_generation;
            &&& after == before
            &&& step is Ask <==> controls && bytes@.len() <= 1048576
            &&& step is Ask ==> step->Ask_0 == (WorkerRequest::Input { terminal_session_id, bytes })
            &&& !(step is Ask) ==> step is Answer && step->Answer_0.events@.len() == 0
                && step->Answer_0.outcome is None
        },
        request matches Request::Paste { terminal_session_id, lease_generation, bytes } ==> {
            let lease = before.control.leases[terminal_session_id.0];
            let controls = before.control.leases.contains_key(terminal_session_id.0)
                && lease.controller == Some(client) && lease.generation == lease_generation;
            &&& after == before
            &&& step is Ask <==> controls && bytes@.len() <= 1048576
            &&& step is Ask ==> step->Ask_0 == (WorkerRequest::Paste { terminal_session_id, bytes })
            &&& !(step is Ask) ==> step is Answer && step->Answer_0.events@.len() == 0
                && step->Answer_0.outcome is None
        },
        request matches Request::Resize { terminal_session_id, lease_generation, size } ==> {
            let lease = before.control.leases[terminal_session_id.0];
            let controls = before.control.leases.contains_key(terminal_session_id.0)
                && lease.controller == Some(client) && lease.generation == lease_generation;
            &&& after == before
            &&& step is Ask <==> controls
            &&& step is Ask ==> step->Ask_0 == (WorkerRequest::Resize { terminal_session_id, size })
        },
{
}

/// Everyone may look: a question for a terminal or for the hierarchy is asked as it
/// is, and a command is tried under the revision that its client knows.
pub proof fn law_everyone_may_look(
    step: ClientStep,
    before: ResidentView,
    after: ResidentView,
    client: UiClientId,
    request: Request,
)
    requires
        serves_client(step, before, after, client, request),
        request is Snapshot || request is CoreSnapshot || request is ApplyCoreCommand,
    ensures
        after == before,
        step is Ask,
        request matches Request::Snapshot { terminal_session_id, since } ==> step->Ask_0 == (
        WorkerRequest::Snapshot { terminal_session_id, since }),
        request is CoreSnapshot ==> step->Ask_0 is CoreSnapshot,
        request matches Request::ApplyCoreCommand { expected_revision, command } ==> step->Ask_0
            == (WorkerRequest::ApplyCoreCommand { expected_revision, command })
            && step->Ask_1.purpose() == (Purpose::Command { client }),
{
}

/// A connection ends where its client leaves, who is acknowledged; the core stops
/// where a client asks it to; and nothing else that a client asks for ends either.
pub proof fn law_connections_end_when_asked(
    step: ClientStep,
    before: ResidentView,
    after: ResidentView,
    client: UiClientId,
    request: Request,
)
    requires
        serves_client(step, before, after, client, request),
    ensures
        step is Answer && step->Answer_0.outcome is Some <==> request is Detach,
        request is Detach ==> step->Answer_0.outcome == Some(ClientOutcome::Disconnected)
            && step->Answer_0.response@ is Ack && after == before,
        request is StopResidentCore <==> step is Ask && step->Ask_0 is Stop,
        request is StopResidentCore ==> step->Ask_1.purpose() == (Purpose::Telling {
            outcome: Some(ClientOutcome::StopResidentCore),
        }),
{
}

/// A session that its controller hands over, or that somebody takes who finds it
/// free, belongs to the new controller: who asked is told the lease, and so are all.
pub proof fn law_handovers_change_the_controller(
    step: ClientStep,
    before: ResidentView,
    after: ResidentView,
    client: UiClientId,
    request: Request,
)
    requires
        serves_client(step, before, after, client, request),
        request is TransferControl || request is AcquireControl,
    ensures
        ({
            let (session, generation, target) = match request {
                Request::TransferControl { terminal_session_id, lease_generation, target } => (
                    terminal_session_id,
                    lease_generation,
                    target,
                ),
                Request::AcquireControl { terminal_session_id, lease_generation } => (
                    terminal_session_id,
                    lease_generation,
                    client,
                ),
                _ => (crate::core_model::TerminalSessionId(0), 0, client),
            };
            let held = before.control.leases[session.0];
            let lease = after.control.leases[session.0];
            let may = before.control.leases.contains_key(session.0) && held.generation == generation
                && if request is TransferControl {
                held.controller == Some(client) && before.control.connected.contains(target.0)
            } else {
                held.controller is None
            };
            &&& step is Answer
            &&& step->Answer_0.outcome is None
            &&& may ==> {
                &&& lease.controller == Some(target)
                &&& generation < u64::MAX ==> lease.generation == generation + 1
                &&& step->Answer_0.response@ == ResponseView::ControlLease(lease)
                &&& step->Answer_0.events@.len() == 1
                &&& step->Answer_0.events@[0]@.kind == (
                super::protocol::SemanticEventKindView::ControlLeaseChanged { lease })
            }
            &&& !may ==> after == before && step->Answer_0.events@.len() == 0 && (
            step->Answer_0.response@ is ControlLeaseDenied || step->Answer_0.response@ is Error)
        }),
{
    let events = step->Answer_0.events@;
    assert(event_views(events).len() == events.len());
    if events.len() > 0 {
        assert(event_views(events)[0] == events[0]@);
    }
}

/// What the terminals answer is told to the client that asked, as it is; the
/// hierarchy comes as it is too, and a command is settled for its client.
pub proof fn law_answers_serve_their_purpose(
    answer: ClientAnswer,
    before: ResidentView,
    after: ResidentView,
    purpose: Purpose,
    result: Result<WorkerResponse, String>,
)
    requires
        finishes(answer, before, after, purpose, result),
    ensures
        purpose matches Purpose::Telling { outcome } ==> after == before && answer.outcome
            == outcome && answer.events@.len() == 0,
        purpose is Telling && result is Err ==> answer.response@ == ResponseView::Error(
            result->Err_0@,
        ),
        purpose is Telling && result is Ok && result->Ok_0 is Ack ==> answer.response@ is Ack,
        purpose is Hierarchy && result is Ok && result->Ok_0 is CoreSnapshot ==> answer.response@
            == ResponseView::CoreSnapshot(result->Ok_0->CoreSnapshot_0@),
        purpose is Hierarchy && result is Err ==> answer.response@ == ResponseView::Error(
            result->Err_0@,
        ) && after == before,
        purpose is Command && result is Ok && result->Ok_0 is CoreCommandAccepted
            ==> answer.response@ is CoreCommandAccepted && answer.events@.len() > 0,
        purpose is Command && !(result is Ok && result->Ok_0 is CoreCommandAccepted) ==> after
            == before && answer.events@.len() == 0,
        !(purpose is Telling) ==> answer.outcome is None,
{
    let events = answer.events@;
    assert(event_views(events).len() == events.len());
}

/// Who is welcomed is told its own identity, the hierarchy, the leases and the number
/// of events so far; where the hierarchy is not known it is told why.
pub proof fn law_welcomes_tell_everything(
    response: ResponseView,
    greeting: Greeting,
    auth_secret: Seq<u8>,
    endpoint: Seq<char>,
    settled: Result<(CoreSnapshot, Vec<super::protocol::ControlLease>), String>,
)
    requires
        welcomes(response, greeting, auth_secret, endpoint, settled),
    ensures
        settled matches Ok((snapshot, leases)) ==> response is Ready && response->client_id
            == greeting.client() && response->snapshot == snapshot@ && response->leases == leases@
            && response->semantic_sequence == greeting.semantic_sequence(),
        settled matches Err(error) ==> response == ResponseView::Error(error@),
{
}

} // verus!
