use agent_terminal::core_model::model::CoreModel;
use agent_terminal::core_model::{
    CoreCommand, CoreCommit, CoreSnapshot, DirectoryPath, TerminalSessionId,
};
use agent_terminal::resident_core::auth::{
    core_resource_id, fresh_core_resource_id, fresh_secret, parse_auth_secret,
    protected_endpoint_name, server_proof, verify_server_proof, AuthError,
};
use agent_terminal::resident_core::client::{
    accept_stop, CoreClient, CoreCommandError, HandshakeError, Operation, SinceReply,
};
use agent_terminal::resident_core::control::{ControlRefusal, ControlState};
use agent_terminal::resident_core::endpoint::{CoreEndpoint, EndpointError};
use agent_terminal::resident_core::events::{
    change_delivery, number_event, route_response, semantic_delivery, Delivery, PendingChanges,
    Routed,
};
use agent_terminal::resident_core::protocol::{
    ControlLease, ControlLeaseDenial, Request, Response, SemanticEventKind, TerminalChange,
    TerminalUpdate, UiClientId, PROTOCOL_VERSION,
};
use agent_terminal::resident_core::reader::{ReadError, ResponseReader};
use agent_terminal::resident_core::runtime::{
    tell_resident, ResidentEvent, ResidentSnapshotPlan, ResidentTerminal,
};
use agent_terminal::resident_core::server::{
    client_action, greet, ClientAction, ResidentCore, WorkerResponse,
};
use agent_terminal::resident_core::snapshot::{snapshot_error_message, TerminalSnapshot};
use agent_terminal::resident_core::wire::frame::encode_response;
use agent_terminal::terminal::{TerminalCell, TerminalLifecycle, TerminalSize};

#[test]
fn development_launches_are_isolated_from_default_and_each_other() {
    let default = CoreEndpoint::for_current_user(1000).expect("default endpoint");
    let first = CoreEndpoint::for_development_launch(1000, 77).expect("first development endpoint");
    let second =
        CoreEndpoint::for_development_launch(1000, 77).expect("second development endpoint");

    assert_ne!(first, default);
    assert_ne!(first, second);
    assert!(first.argument().contains("-development-"));
}

#[test]
fn removing_layout_persistence_preserves_running_v8_core_compatibility() {
    assert_eq!(
        PROTOCOL_VERSION, 8,
        "a Desktop Shell upgrade must still attach to an already-running v8 Resident Core"
    );
}

#[test]
fn endpoints_come_back_from_their_arguments() {
    let endpoint = CoreEndpoint::for_profile("work").expect("endpoint");
    assert_eq!(
        CoreEndpoint::from_argument(endpoint.argument().to_owned()),
        Ok(endpoint.clone())
    );
    assert_eq!(
        CoreEndpoint::from_argument("other".into()),
        Err(EndpointError::Prefix)
    );
    assert_eq!(
        CoreEndpoint::for_profile(""),
        Err(EndpointError::ProfileLength)
    );
    assert_eq!(
        CoreEndpoint::for_profile(&"a".repeat(81)),
        Err(EndpointError::ProfileLength)
    );
    assert_eq!(
        CoreEndpoint::for_profile("a b"),
        Err(EndpointError::ProfileCharacters)
    );
    assert!(endpoint.socket_name().ends_with(".sock"));
    assert!(endpoint.lock_name().ends_with(".lock"));
    assert_eq!(endpoint.socket_name().len(), 21);
}

fn cell(x: u16, y: u16, text: &str) -> TerminalCell {
    TerminalCell {
        x,
        y,
        width: 1,
        text: text.into(),
        fg: [0xdd; 3],
        bg: [0x11; 3],
        has_explicit_bg: false,
    }
}

#[test]
fn ordered_dirty_row_updates_replace_only_the_rows_they_name() {
    let mut snapshot = TerminalSnapshot {
        revision: 7,
        lifecycle: TerminalLifecycle::Running,
        cols: 2,
        rows: 2,
        cursor: Some((0, 0)),
        default_fg: [0xdd; 3],
        default_bg: [0x11; 3],
        cells: vec![
            cell(0, 0, "a"),
            cell(1, 0, "b"),
            cell(0, 1, "c"),
            cell(1, 1, "d"),
        ],
    };
    let update = TerminalUpdate {
        base_revision: Some(7),
        revision: 8,
        lifecycle: TerminalLifecycle::Running,
        cols: 2,
        rows: 2,
        cursor: Some((1, 1)),
        default_fg: [0xdd; 3],
        default_bg: [0x11; 3],
        dirty_rows: vec![1],
        cells: vec![cell(0, 1, "x"), cell(1, 1, "y")],
    };

    snapshot.apply_update(update).expect("apply ordered delta");

    assert_eq!(snapshot.revision, 8);
    assert_eq!(snapshot.cursor, Some((1, 1)));
    assert_eq!(snapshot.text(), "ab\nxy\n");
}

#[test]
fn a_revision_gap_requires_a_full_recovery_snapshot() {
    let mut snapshot = TerminalSnapshot {
        revision: 7,
        lifecycle: TerminalLifecycle::Running,
        cols: 1,
        rows: 1,
        cursor: None,
        default_fg: [0xdd; 3],
        default_bg: [0x11; 3],
        cells: vec![cell(0, 0, "a")],
    };
    let update = TerminalUpdate {
        base_revision: Some(6),
        revision: 8,
        lifecycle: TerminalLifecycle::Running,
        cols: 1,
        rows: 1,
        cursor: None,
        default_fg: [0xdd; 3],
        default_bg: [0x11; 3],
        dirty_rows: vec![0],
        cells: vec![cell(0, 0, "b")],
    };

    let error = snapshot
        .apply_update(update)
        .expect_err("reject out-of-order delta");
    let error = snapshot_error_message(error);
    assert!(error.contains("revision gap"), "{error}");
    assert_eq!(snapshot.revision, 7);
    assert_eq!(snapshot.text(), "a\n");
}

#[test]
fn protected_endpoint_names_are_bound_to_the_authentication_secret() {
    let endpoint = CoreEndpoint::for_profile("endpoint-binding-test").unwrap();
    let first = protected_endpoint_name(&[7_u8; 32], &endpoint);
    let repeated = protected_endpoint_name(&[7_u8; 32], &endpoint);
    let other_secret = protected_endpoint_name(&[8_u8; 32], &endpoint);

    assert_eq!(first, repeated);
    assert_ne!(first, other_secret);
    assert!(!first.contains(endpoint.argument()));
}

#[test]
fn server_proof_binds_the_secret_endpoint_and_nonce() {
    let endpoint = CoreEndpoint::for_profile("authentication-test").unwrap();
    let other_endpoint = CoreEndpoint::for_profile("other-authentication-test").unwrap();
    let secret = [7_u8; 32];
    let other_secret = [8_u8; 32];
    let nonce = [9_u8; 32];
    let other_nonce = [10_u8; 32];
    let proof = server_proof(&secret, &endpoint, &nonce);

    verify_server_proof(&secret, &endpoint, &nonce, &proof).unwrap();
    assert!(verify_server_proof(&other_secret, &endpoint, &nonce, &proof).is_err());
    assert!(verify_server_proof(&secret, &other_endpoint, &nonce, &proof).is_err());
    assert!(verify_server_proof(&secret, &endpoint, &other_nonce, &proof).is_err());
}

#[test]
fn secrets_are_random_and_of_one_length() {
    let first = fresh_secret().expect("secret");
    let second = fresh_secret().expect("secret");
    assert_ne!(first, second);
    assert_eq!(parse_auth_secret(vec![4; 32]), Ok([4; 32]));
    assert_eq!(
        parse_auth_secret(vec![4; 31]),
        Err(AuthError::SecretLength(31))
    );
    assert_eq!(core_resource_id(0), 1);
    assert!(fresh_core_resource_id().expect("identity") > 0);
}

fn ready() -> Response {
    Response::Ready {
        version: 2,
        proof_bytes: [7; 32],
        client_id: UiClientId(1),
        snapshot: CoreSnapshot {
            revision: 0,
            spaces: Vec::new(),
            terminal_sessions: Vec::new(),
        },
        leases: vec![ControlLease {
            terminal_session_id: TerminalSessionId::from_u64(1),
            generation: 1,
            controller: Some(UiClientId(1)),
        }],
        semantic_sequence: 1,
    }
}

#[test]
fn handshake_reader_survives_transient_would_block() {
    let encoded = encode_response(&ready()).expect("encode handshake response");
    let mut reader = ResponseReader::new();
    let mut response = None;
    let mut offset = 0;
    while response.is_none() && offset < encoded.len() {
        assert!(reader.capacity() > 0);
        let end = (offset + 2).min(encoded.len());
        response = reader.accept(&encoded[offset..end]);
        offset = end;
    }

    assert_eq!(offset, encoded.len());
    assert!(matches!(response, Some(Ok(Response::Ready { .. }))));
}

#[test]
fn a_connection_that_ends_within_a_response_is_an_error() {
    let encoded = encode_response(&Response::Ack).expect("encode response");
    let mut reader = ResponseReader::new();
    assert_eq!(reader.accept_end(), Ok(()));
    assert!(reader.accept(&encoded[..3]).is_none());
    assert_eq!(reader.accept_end(), Err(ReadError::Disconnected));
    assert_eq!(reader.accept(&encoded[3..]), Some(Ok(Response::Ack)));
}

fn space(model: &mut CoreModel, revision: u64) -> CoreCommit {
    model
        .apply(
            revision,
            CoreCommand::CreateSpace {
                name: "Space".into(),
                directory: DirectoryPath::from_text("/work"),
            },
        )
        .expect("create Space")
}

#[test]
fn fresh_namespaces_start_with_fresh_hierarchies() {
    let mut first = CoreModel::with_id_namespace(10);
    let mut second = CoreModel::with_id_namespace(5000);
    let before = space(&mut first, 0);
    let after = space(&mut second, 0);
    assert_eq!(after.revision, 1);
    assert_ne!(
        before.snapshot.terminal_sessions[0].id,
        after.snapshot.terminal_sessions[0].id
    );
}

#[test]
fn control_passes_from_client_to_client() {
    let mut model = CoreModel::new();
    let snapshot = space(&mut model, 0).snapshot;
    let session = snapshot.terminal_sessions[0].id;
    let mut control = ControlState::new(&snapshot);
    let first = UiClientId(1);
    let second = UiClientId(2);
    assert_eq!(control.attach(first).len(), 1);
    assert!(control.attach(second).is_empty());
    let lease = control.control_lease(session).expect("a lease");
    assert_eq!(lease.controller, Some(first));
    assert!(control.authorize(first, session, lease.generation).is_ok());
    assert!(matches!(
        control.authorize(second, session, lease.generation),
        Err(ControlRefusal::Denied {
            reason: ControlLeaseDenial::HeldByOther,
            ..
        })
    ));
    assert!(matches!(
        control.authorize(first, session, lease.generation + 1),
        Err(ControlRefusal::Denied {
            reason: ControlLeaseDenial::StaleGeneration,
            ..
        })
    ));
    assert!(matches!(
        control.authorize(first, TerminalSessionId::from_u64(999), 1),
        Err(ControlRefusal::NoSession)
    ));
    let moved = control
        .transfer_control(first, session, lease.generation, second)
        .expect("hand over");
    assert_eq!(moved.controller, Some(second));
    assert!(moved.generation > lease.generation);
    assert!(matches!(
        control.authorize(first, session, moved.generation),
        Err(ControlRefusal::Denied { .. })
    ));
    assert!(matches!(
        control.transfer_control(second, session, moved.generation, UiClientId(9)),
        Err(ControlRefusal::Denied {
            reason: ControlLeaseDenial::TargetUnavailable,
            ..
        })
    ));
    control.detach(second);
    let free = control.control_lease(session).expect("a lease");
    assert_eq!(free.controller, None);
    assert!(matches!(
        control.authorize(first, session, free.generation),
        Err(ControlRefusal::Denied {
            reason: ControlLeaseDenial::NoController,
            ..
        })
    ));
    let taken = control
        .acquire_control(first, session, free.generation)
        .expect("take control");
    assert_eq!(taken.controller, Some(first));
}

#[test]
fn clients_greet_once_and_are_told_why_not() {
    assert_eq!(
        greet(Some(Request::Hello {
            version: PROTOCOL_VERSION,
            nonce: [3; 32]
        })),
        Ok([3; 32])
    );
    assert!(matches!(
        greet(Some(Request::Hello {
            version: 1,
            nonce: [3; 32]
        })),
        Err(Response::Error(_))
    ));
    assert!(matches!(greet(Some(Request::Detach)), Err(Response::Error(_))));
    assert!(matches!(greet(None), Err(Response::Error(_))));
    assert!(matches!(
        client_action(Request::Hello {
            version: PROTOCOL_VERSION,
            nonce: [3; 32]
        }),
        ClientAction::Reply(Response::Error(_))
    ));
}

#[test]
fn the_core_attaches_clients_and_numbers_what_it_tells() {
    let mut model = CoreModel::new();
    let commit = space(&mut model, 0);
    let session = commit.snapshot.terminal_sessions[0].id;
    let mut core = ResidentCore::start(&commit.snapshot);
    let (client, events) = core.attach_client();
    assert_eq!(events.len(), 1);
    assert!(matches!(
        events[0].kind,
        SemanticEventKind::ControlLeaseChanged { .. }
    ));
    let Response::ControlLease(lease) = core.control_lease(session) else {
        panic!("the session has a lease");
    };
    assert_eq!(lease.controller, Some(client));
    let before = core.semantic_sequence();
    let (response, events) = core.settle_command(
        client,
        Ok(WorkerResponse::CoreSnapshot(commit.snapshot.clone())),
    );
    assert!(events.is_empty() || core.semantic_sequence() > before);
    drop(response);
    let change = core.number_change(session, 4);
    assert_eq!(change.terminal_revision, 4);
    let next = core.number_change(session, 5);
    assert!(next.sequence > change.sequence);
}

#[test]
fn events_and_changes_are_routed_in_order() {
    let mut sequence = 0;
    let kind = SemanticEventKind::TerminalLifecycleChanged {
        terminal_session_id: TerminalSessionId::from_u64(1),
        lifecycle: TerminalLifecycle::Exited,
        terminal_revision: 2,
    };
    let first = number_event(&mut sequence, kind.clone());
    let second = number_event(&mut sequence, kind);
    assert_eq!((first.sequence, second.sequence), (1, 2));
    let mut seen = 0;
    assert!(matches!(
        route_response(&mut seen, Response::SemanticEvent(first)),
        Routed::Event(_)
    ));
    assert_eq!(seen, 1);
    assert!(matches!(
        route_response(&mut seen, Response::Ack),
        Routed::Reply(Response::Ack)
    ));
    assert_eq!(semantic_delivery(Delivery::Full), (false, true));
    assert!(change_delivery(Delivery::Full));
    assert!(!change_delivery(Delivery::Disconnected));

    let change = |sequence, session, revision| TerminalChange {
        sequence,
        terminal_session_id: TerminalSessionId::from_u64(session),
        terminal_revision: revision,
    };
    let mut pending = PendingChanges::new();
    pending.note(change(1, 5, 1));
    pending.note(change(2, 6, 1));
    pending.note(change(3, 5, 9));
    assert_eq!(pending.drain(), vec![change(2, 6, 1), change(3, 5, 9)]);
    assert!(pending.drain().is_empty());
}

#[test]
fn a_client_checks_the_core_and_keeps_what_it_is_told() {
    let endpoint = CoreEndpoint::for_profile("client").expect("endpoint");
    let secret = [1; 32];
    let nonce = [2; 32];
    let mut model = CoreModel::new();
    let commit = space(&mut model, 0);
    let session = commit.snapshot.terminal_sessions[0].id;
    let answer = |version, proof_bytes| Response::Ready {
        version,
        proof_bytes,
        client_id: UiClientId(3),
        snapshot: commit.snapshot.clone(),
        leases: vec![ControlLease {
            terminal_session_id: session,
            generation: 4,
            controller: Some(UiClientId(3)),
        }],
        semantic_sequence: 0,
    };
    let proof = server_proof(&secret, &endpoint, &nonce);
    assert!(matches!(
        CoreClient::accept_handshake(&secret, &endpoint, &nonce, answer(8, [0; 32])),
        Err(HandshakeError::Authentication)
    ));
    assert!(matches!(
        CoreClient::accept_handshake(&secret, &endpoint, &nonce, Response::Error("no".into())),
        Err(HandshakeError::Refused(reason)) if reason == "no"
    ));
    let (mut client, _) =
        CoreClient::accept_handshake(&secret, &endpoint, &nonce, answer(8, proof))
            .unwrap_or_else(|_| panic!("the Resident Core is authentic"));
    assert_eq!(client.client_id(), UiClientId(3));
    assert_eq!(client.active_terminal_session_id(), Some(session));
    assert!(matches!(
        client.input_request(session, b"x"),
        Ok(Request::Input { lease_generation: 4, .. })
    ));
    assert!(matches!(
        client.resize_request(session, TerminalSize::new(80, 24, 9, 20)),
        Ok(Request::Resize { .. })
    ));
    assert!(client
        .accept_snapshot(
            session,
            Response::Snapshot(Some(TerminalUpdate::empty(1, TerminalLifecycle::Running)))
        )
        .is_ok());
    assert!(matches!(
        client.accept_snapshot_since(session, Response::Snapshot(None)),
        Ok(SinceReply::Unchanged)
    ));
    assert!(client.accept_acknowledgement(Operation::Input, Response::Ack).is_ok());
    assert!(client
        .accept_acknowledgement(Operation::Input, Response::Error("no".into()))
        .is_err());
    assert!(accept_stop(Response::Ack).is_ok());
    let says = |text: &str| CoreCommandError::Message(text.to_owned());
    assert_eq!(
        accept_stop(Response::ResnapshotRequired),
        Err(says("invalid stop response: ResnapshotRequired"))
    );
    assert_eq!(
        client.accept_acknowledgement(Operation::Paste, Response::ResnapshotRequired),
        Err(says("invalid paste response: ResnapshotRequired"))
    );
    assert_eq!(
        client.accept_handover(Operation::Transfer, Response::Ack),
        Err(says("invalid Control Lease transfer response: Ack"))
    );
    assert_eq!(
        client.accept_lease(Operation::Lease, Response::Ack),
        Err(says("invalid Control Lease response: Ack"))
    );
    assert!(matches!(
        client.accept_snapshot(session, Response::Ack),
        Err(CoreCommandError::Message(message)) if message == "invalid snapshot response: Ack"
    ));
    assert!(matches!(
        client.accept_recovery(session, Response::Snapshot(None)),
        Err(CoreCommandError::Message(message))
            if message == "invalid recovery snapshot response: Snapshot(None)"
    ));
    assert!(matches!(
        client.accept_snapshot_since(session, Response::Ack),
        Err(CoreCommandError::Message(message))
            if message == "invalid conditional snapshot response: Ack"
    ));
    assert_eq!(
        client.accept_hierarchy(Response::Ack),
        Err(says("invalid Core snapshot response: Ack"))
    );
    assert!(matches!(
        client.accept_outcome(Response::Ack),
        Err(CoreCommandError::Message(message)) if message == "invalid Core command response: Ack"
    ));
    assert!(matches!(
        CoreClient::accept_handshake(&secret, &endpoint, &nonce, Response::Ack),
        Err(error) if error.message()
            == "Resident Core returned an invalid handshake response: Ack"
    ));
}

#[test]
fn ended_terminals_are_blank_and_take_no_input() {
    let mut terminal = ResidentTerminal::ended();
    let ResidentSnapshotPlan::Blank(update) = terminal.plan_snapshot(None) else {
        panic!("an ended terminal is blank");
    };
    assert_eq!(update.lifecycle, TerminalLifecycle::Exited);
    assert_eq!(
        terminal.check_live(),
        Err("Terminal Session has exited".to_owned())
    );
    assert!(matches!(
        terminal.plan_snapshot(Some(0)),
        ResidentSnapshotPlan::Unchanged
    ));
}

#[test]
fn a_natural_exit_is_told_and_remembered() {
    let session = TerminalSessionId::from_u64(4);
    let before = ResidentTerminal::spawned();
    let mut after = ResidentTerminal::spawned();
    after.note_exit(Ok(()));
    let (events, ended) = tell_resident(session, &before, &after);
    assert!(ended);
    assert_eq!(
        events,
        vec![
            ResidentEvent::TerminalLifecycleChanged {
                terminal_session_id: session,
                lifecycle: TerminalLifecycle::Exited,
                terminal_revision: 1,
            },
            ResidentEvent::TerminalChanged {
                terminal_session_id: session,
                terminal_revision: 1,
            },
        ]
    );
}

#[test]
fn resident_terminals_count_their_changes() {
    let mut terminal = ResidentTerminal::spawned();
    terminal.note_drained(Ok(true));
    terminal.note_drained(Ok(false));
    assert_eq!(terminal.revision(), 1);
    assert_eq!(terminal.note_paste(Ok(true), Ok(())), Ok(true));
    assert_eq!(terminal.revision(), 2);
    assert_eq!(
        terminal.note_paste(Ok(false), Err("full".into())),
        Err("full".to_owned())
    );
    let size = TerminalSize::new(80, 24, 9, 20);
    assert!(!terminal.needs_resize(size, size));
    assert!(terminal.needs_resize(size, TerminalSize::new(81, 24, 9, 20)));
    assert_eq!(terminal.note_resize(Ok(())), Ok(true));
    assert!(matches!(
        terminal.plan_snapshot(Some(1)),
        ResidentSnapshotPlan::Render { force_full: true }
    ));
    terminal.note_failure("broken".into());
    assert_eq!(
        terminal.lifecycle(),
        TerminalLifecycle::Failed("broken".into())
    );
    assert_eq!(
        ResidentTerminal::failed("no shell".into()).check_live(),
        Err("Terminal Session failed: no shell".to_owned())
    );
}
