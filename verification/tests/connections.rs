use agent_terminal::application_core::refresh::Reported;
use agent_terminal::core_model::{
    CoreCommand, CoreSnapshot, DirectoryPath, PaneLayout, TerminalSessionId,
};
use agent_terminal::resident_core::client::{CoreClient, Operation};
use agent_terminal::resident_core::connection::{
    approach, greet_client, serve_client, Approach, ClientOutcome, ClientStep, ConnectError,
    Connecting, GreetStep,
};
use agent_terminal::resident_core::endpoint::CoreEndpoint;
use agent_terminal::resident_core::listening::{
    after_bind, after_inspection, after_lock, after_probe, after_reclaim, check_owned_directory,
    same_user, BindOutcome, ListenStep,
};
use agent_terminal::resident_core::protocol::{
    ControlLeaseDenial, Request, Response, SemanticEventKind, UiClientId, PROTOCOL_VERSION,
};
use agent_terminal::resident_core::runtime::{ResidentEvent, ResidentTerminal};
use agent_terminal::resident_core::server::{ResidentCore, WorkerRequest, WorkerResponse};
use agent_terminal::resident_core::worker::{
    begin, finish_effects, finish_input, finish_paste, finish_render, finish_resize, refresh,
    ResidentAnswer, ResidentRuntime, ResidentServe,
};
use agent_terminal::terminal::TerminalSize;

fn start() -> (ResidentRuntime, CoreSnapshot, TerminalSessionId) {
    let (mut runtime, commit) = ResidentRuntime::start(
        "project".into(),
        DirectoryPath::from_text("/work/project"),
        1,
    )
    .unwrap_or_else(|_| panic!("start the runtime"));
    for effect in &commit.effects {
        runtime.note_effect(effect, None);
    }
    let session = commit.snapshot.terminal_sessions[0].id;
    (runtime, commit.snapshot, session)
}

fn serve(runtime: &mut ResidentRuntime, request: WorkerRequest) -> ResidentAnswer {
    match begin(runtime, request) {
        ResidentServe::Reply(answer) => answer,
        ResidentServe::Input { .. } => finish_input(Ok(())),
        ResidentServe::Paste {
            terminal_session_id,
            ..
        } => finish_paste(runtime, terminal_session_id, Ok(true), Ok(())),
        ResidentServe::Resize {
            terminal_session_id,
            ..
        } => finish_resize(runtime, terminal_session_id, Some(Ok(()))),
        ResidentServe::Render {
            terminal_session_id,
            ..
        } => finish_render(runtime, terminal_session_id, Err("no screen".into())),
        ResidentServe::Effects(commit) => {
            for effect in &commit.effects {
                runtime.note_effect(effect, None);
            }
            finish_effects(commit)
        }
    }
}

/// A client that has been let in, with the core's answer.
fn connect(
    core: &mut ResidentCore,
    runtime: &mut ResidentRuntime,
    endpoint: &CoreEndpoint,
) -> (UiClientId, CoreClient) {
    let nonce = [9; 32];
    let GreetStep::Ask(_, greeting) = greet_client(core, Some(Connecting::hello(nonce))) else {
        panic!("the client is let in");
    };
    let answer = serve(runtime, WorkerRequest::CoreSnapshot);
    let greeted = greeting.finish(core, &[7; 32], endpoint, answer.response);
    assert_eq!(greeted.outcome, None);
    let accepted = Connecting::finish(&[7; 32], endpoint, &nonce, Ok(Some(greeted.response)));
    let Ok((client, _)) = accepted else {
        panic!("the client accepts the core");
    };
    (greeting.client_id(), client)
}

fn ask(
    core: &mut ResidentCore,
    runtime: &mut ResidentRuntime,
    client: UiClientId,
    request: Request,
) -> Response {
    match serve_client(core, client, request) {
        ClientStep::Answer(answer) => answer.response,
        ClientStep::Ask(request, asking) => {
            let answer = serve(runtime, request);
            asking.finish(core, answer.response).response
        }
    }
}

#[test]
fn a_core_and_its_client_come_together() {
    let (mut runtime, snapshot, session) = start();
    let endpoint = CoreEndpoint::for_profile("work").expect("endpoint");
    let mut core = ResidentCore::start(&snapshot);
    let (id, client) = connect(&mut core, &mut runtime, &endpoint);
    assert_eq!(client.client_id(), id);
    assert_eq!(client.core_snapshot(), &snapshot);
    assert_eq!(
        client
            .control_lease_for(session)
            .expect("a lease")
            .controller,
        Some(id)
    );
    let mut client = client;
    assert_eq!(client.active_terminal_session_id(), Some(session));
    assert_eq!(client.set_active_terminal_session(session), Ok(()));
    assert_eq!(
        client.set_active_terminal_session(TerminalSessionId::from_u64(99)),
        Err("Terminal Session 99 does not exist".to_owned())
    );
    assert!(matches!(client.active_session(), Ok(active) if active == session));
    let request = client
        .input_request(session, b"ls\r")
        .expect("an input request");
    assert_eq!(
        ask(&mut core, &mut runtime, id, request),
        Response::Ack
    );
}

#[test]
fn a_core_without_the_secret_is_not_accepted() {
    let (mut runtime, snapshot, _) = start();
    let endpoint = CoreEndpoint::for_profile("work").expect("endpoint");
    let mut core = ResidentCore::start(&snapshot);
    let nonce = [9; 32];
    let GreetStep::Ask(_, greeting) = greet_client(&mut core, Some(Connecting::hello(nonce)))
    else {
        panic!("the client is let in");
    };
    let answer = serve(&mut runtime, WorkerRequest::CoreSnapshot);
    let greeted = greeting.finish(&mut core, &[1; 32], &endpoint, answer.response);
    assert!(matches!(
        Connecting::finish(&[7; 32], &endpoint, &nonce, Ok(Some(greeted.response))),
        Err(ConnectError::Handshake(error))
            if error.message() == "Resident Core authentication failed"
    ));
    assert!(matches!(
        Connecting::finish(&[7; 32], &endpoint, &nonce, Ok(None)),
        Err(ConnectError::Said(message))
            if message == "Resident Core disconnected during handshake"
    ));
    assert!(matches!(
        Connecting::finish(&[7; 32], &endpoint, &nonce, Err("late".into())),
        Err(ConnectError::Said(message)) if message == "receive Resident Core handshake: late"
    ));
}

#[test]
fn clients_that_do_not_greet_are_refused() {
    let (_, snapshot, _) = start();
    let mut core = ResidentCore::start(&snapshot);
    assert!(matches!(
        greet_client(&mut core, Some(Request::Detach)),
        GreetStep::Refuse(Response::Error(error))
            if error == "UI Client must begin with a protocol handshake"
    ));
    assert!(matches!(
        greet_client(
            &mut core,
            Some(Request::Hello {
                version: PROTOCOL_VERSION + 1,
                nonce: [0; 32]
            })
        ),
        GreetStep::Refuse(Response::Error(error))
            if error == "Resident Core protocol mismatch: client 9, core 8"
    ));
}

#[test]
fn a_terminal_obeys_the_client_that_controls_it() {
    let (mut runtime, snapshot, session) = start();
    let endpoint = CoreEndpoint::for_profile("work").expect("endpoint");
    let mut core = ResidentCore::start(&snapshot);
    let (first, mut client) = connect(&mut core, &mut runtime, &endpoint);
    let (second, _) = connect(&mut core, &mut runtime, &endpoint);
    let generation = client.control_lease_for(session).expect("lease").generation;
    let input = |lease_generation| Request::Input {
        terminal_session_id: session,
        lease_generation,
        bytes: vec![b'x'],
    };
    assert!(matches!(
        ask(&mut core, &mut runtime, second, input(generation)),
        Response::ControlLeaseDenied {
            reason: ControlLeaseDenial::HeldByOther,
            ..
        }
    ));
    assert!(matches!(
        ask(&mut core, &mut runtime, first, input(generation + 1)),
        Response::ControlLeaseDenied {
            reason: ControlLeaseDenial::StaleGeneration,
            ..
        }
    ));
    let request = client
        .transfer_request(session, second)
        .expect("a transfer request");
    let ClientStep::Answer(handed) = serve_client(&mut core, first, request) else {
        panic!("control is handed over at once");
    };
    assert_eq!(handed.events.len(), 1);
    assert!(matches!(
        handed.events[0].kind,
        SemanticEventKind::ControlLeaseChanged { .. }
    ));
    let lease = client
        .accept_handover(Operation::Transfer, handed.response)
        .unwrap_or_else(|_| panic!("control is handed over"));
    assert_eq!(lease.controller, Some(second));
    assert_eq!(
        ask(&mut core, &mut runtime, second, input(lease.generation)),
        Response::Ack
    );
    assert!(matches!(
        ask(&mut core, &mut runtime, first, input(lease.generation)),
        Response::ControlLeaseDenied { .. }
    ));
}

#[test]
fn requests_that_are_too_long_or_too_late_are_answered() {
    let (mut runtime, snapshot, session) = start();
    let mut core = ResidentCore::start(&snapshot);
    let endpoint = CoreEndpoint::for_profile("work").expect("endpoint");
    let (client, _) = connect(&mut core, &mut runtime, &endpoint);
    assert!(matches!(
        ask(
            &mut core,
            &mut runtime,
            client,
            Request::Paste {
                terminal_session_id: session,
                lease_generation: 1,
                bytes: vec![0; 1024 * 1024 + 1]
            }
        ),
        Response::Error(error) if error == "terminal paste command exceeds 1 MiB"
    ));
    assert!(matches!(
        ask(
            &mut core,
            &mut runtime,
            client,
            Request::Hello { version: PROTOCOL_VERSION, nonce: [0; 32] }
        ),
        Response::Error(error) if error == "UI Client already completed its handshake"
    ));
    let ClientStep::Answer(answer) = serve_client(&mut core, client, Request::Detach) else {
        panic!("a client leaves at once");
    };
    assert_eq!(answer.outcome, Some(ClientOutcome::Disconnected));
    let ClientStep::Ask(request, asking) =
        serve_client(&mut core, client, Request::StopResidentCore)
    else {
        panic!("the terminals are stopped first");
    };
    let answer = serve(&mut runtime, request);
    assert!(answer.stop);
    let answer = asking.finish(&mut core, answer.response);
    assert_eq!(answer.outcome, Some(ClientOutcome::StopResidentCore));
    assert_eq!(answer.response, Response::Ack);
}

#[test]
fn commands_give_their_client_control_of_what_they_create() {
    let (mut runtime, snapshot, _) = start();
    let mut core = ResidentCore::start(&snapshot);
    let endpoint = CoreEndpoint::for_profile("work").expect("endpoint");
    let (client, _) = connect(&mut core, &mut runtime, &endpoint);
    let request = Request::ApplyCoreCommand {
        expected_revision: snapshot.revision,
        command: CoreCommand::CreateTab {
            space_id: snapshot.spaces[0].id,
            name: "Terminal".into(),
        },
    };
    let ClientStep::Ask(request, asking) = serve_client(&mut core, client, request) else {
        panic!("the terminals are asked");
    };
    let answer = serve(&mut runtime, request);
    let answer = asking.finish(&mut core, answer.response);
    assert!(matches!(
        answer.events[0].kind,
        SemanticEventKind::HierarchyChanged { revision } if revision == snapshot.revision + 1
    ));
    assert_eq!(answer.events.len(), 2);
    let Response::CoreCommandAccepted(outcome) = answer.response else {
        panic!("the command is accepted");
    };
    assert_eq!(outcome.control_leases.len(), 2);
    assert!(outcome
        .control_leases
        .iter()
        .all(|lease| lease.controller == Some(client)));
    assert!(matches!(
        ask(&mut core, &mut runtime, client, Request::CoreSnapshot),
        Response::CoreSnapshot(current) if current.terminal_sessions.len() == 2
    ));
}

#[test]
fn terminals_that_are_gone_are_no_error() {
    let (mut runtime, _, session) = start();
    let gone = TerminalSessionId::from_u64(99);
    let snapshot = |since, terminal_session_id| WorkerRequest::Snapshot {
        terminal_session_id,
        since,
    };
    assert!(matches!(
        serve(&mut runtime, snapshot(Some(1), gone)).response,
        Ok(WorkerResponse::Snapshot(None))
    ));
    assert!(matches!(
        serve(&mut runtime, snapshot(None, gone)).response,
        Err(error) if error == "Terminal Session 99 does not exist"
    ));
    assert!(matches!(
        serve(
            &mut runtime,
            WorkerRequest::Input { terminal_session_id: gone, bytes: Vec::new() }
        )
        .response,
        Ok(WorkerResponse::Ack)
    ));
    assert!(matches!(
        serve(&mut runtime, snapshot(None, session)).response,
        Err(error) if error == "no screen"
    ));
    runtime.put_terminal(session, ResidentTerminal::ended());
    assert!(matches!(
        serve(&mut runtime, snapshot(None, session)).response,
        Ok(WorkerResponse::Snapshot(Some(update))) if update.cols == 80 && update.cells.is_empty()
    ));
}

#[test]
fn sizes_and_pastes_count_as_changes() {
    let (mut runtime, _, session) = start();
    let size = TerminalSize::new(100, 30, 8, 16);
    let answer = serve(
        &mut runtime,
        WorkerRequest::Resize {
            terminal_session_id: session,
            size,
        },
    );
    assert_eq!(answer.changed, Some((session, 1)));
    assert_eq!(finish_resize(&mut runtime, session, None).changed, None);
    let answer = finish_resize(&mut runtime, session, Some(Err("denied".into())));
    assert_eq!(answer.changed, None);
    assert!(matches!(answer.response, Err(error) if error == "denied"));
    let answer = finish_paste(&mut runtime, session, Ok(true), Ok(()));
    assert_eq!(answer.changed, Some((session, 3)));
    let answer = finish_paste(&mut runtime, session, Ok(true), Err("closed".into()));
    assert!(matches!(answer.response, Err(error) if error == "closed"));
}

#[test]
fn ended_sessions_leave_the_hierarchy() {
    let (mut runtime, snapshot, session) = start();
    let commit = runtime.close_exited(session);
    assert_eq!(commit.revision, snapshot.revision + 1);
    assert!(commit.snapshot.spaces.is_empty());
    for effect in &commit.effects {
        runtime.note_effect(effect, None);
    }
    assert!(runtime.terminal(session).is_none());
    assert!(matches!(
        snapshot.spaces[0].tabs[0].layout,
        PaneLayout::Pane(_)
    ));
}

#[test]
fn clients_start_a_core_where_none_answers() {
    assert_eq!(approach(0), Approach::Connect { timeout_millis: 100 });
    assert_eq!(
        approach(1),
        Approach::StartThenConnect {
            timeout_millis: 10000
        }
    );
    assert_eq!(approach(2), Approach::GiveUp);
    let connecting = Connecting::begin(1000, 100);
    assert_eq!(connecting.patience(1000), 100);
    assert_eq!(connecting.patience(1200), 1);
    assert!(!connecting.is_over(1099));
    assert_eq!(connecting.accept_refusal(1099, "refused"), None);
    assert_eq!(
        connecting.accept_refusal(1100, "refused").as_deref(),
        Some("connect Resident Core: refused")
    );
}

#[test]
fn only_a_deserted_socket_of_the_same_user_is_reclaimed() {
    assert_eq!(after_lock(false, Ok(())), ListenStep::Bind);
    assert_eq!(after_lock(true, Err("busy".into())), ListenStep::Yield);
    assert_eq!(
        after_lock(false, Err("denied".into())),
        ListenStep::Fail("lock Resident Core startup: denied".into())
    );
    assert_eq!(after_bind(BindOutcome::Listening), ListenStep::Serve);
    let in_use = || BindOutcome::InUse {
        error: "in use".into(),
    };
    assert_eq!(after_bind(in_use()), ListenStep::Probe);
    assert_eq!(
        after_bind(BindOutcome::Failed {
            error: "denied".into()
        }),
        ListenStep::Fail("listen at Resident Core endpoint: denied".into())
    );
    assert_eq!(after_probe(false, Ok(())), ListenStep::Yield);
    assert_eq!(after_probe(true, Err("refused".into())), ListenStep::Inspect);
    assert_eq!(
        after_probe(false, Err("denied".into())),
        ListenStep::Fail("probe existing Resident Core endpoint: denied".into())
    );
    assert_eq!(after_inspection(true, 5, 5, "/run/s"), ListenStep::Reclaim);
    assert_eq!(
        after_inspection(true, 6, 5, "/run/s"),
        ListenStep::Fail("refuse to reclaim unverified Resident Core endpoint: /run/s".into())
    );
    assert_eq!(
        after_inspection(false, 5, 5, "/run/s"),
        ListenStep::Fail("refuse to reclaim unverified Resident Core endpoint: /run/s".into())
    );
    assert_eq!(after_reclaim(BindOutcome::Listening), ListenStep::Serve);
    assert_eq!(
        after_reclaim(in_use()),
        ListenStep::Fail("listen at reclaimed Resident Core endpoint: in use".into())
    );
    assert!(check_owned_directory(true, 5, 5, "/run").is_ok());
    assert!(check_owned_directory(true, 0, 5, "/run").is_err());
    assert!(check_owned_directory(false, 5, 5, "/run").is_err());
    assert!(same_user(Some(5), 5));
    assert!(!same_user(Some(6), 5));
    assert!(!same_user(None, 5));
}

#[test]
fn resident_terminals_tell_their_changes() {
    let (mut runtime, _, session) = start();
    let (events, exited) = refresh(&mut runtime, session, Ok(true), Vec::new());
    assert_eq!(
        events,
        vec![ResidentEvent::TerminalChanged {
            terminal_session_id: session,
            terminal_revision: 1
        }]
    );
    assert!(!exited);
    let (events, exited) = refresh(
        &mut runtime,
        session,
        Ok(false),
        vec![
            Reported::Changed,
            Reported::Exited {
                output: Ok(false),
                reap: Ok(()),
            },
        ],
    );
    assert_eq!(events.len(), 2);
    assert!(exited);
    let gone = TerminalSessionId::from_u64(99);
    let (events, exited) = refresh(&mut runtime, gone, Ok(true), Vec::new());
    assert!(events.is_empty() && !exited);
}
