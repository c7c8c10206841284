use agent_terminal::application_core::{
    CoreCommandOutcome, SemanticEventKind, TerminalChange, TerminalSnapshot, TerminalUpdate,
};
use agent_terminal::core_driver::steps::{
    begin, begin_batch, finish_hierarchy, finish_refresh, finish_sent, load, DriverEvent, Step,
};
use agent_terminal::core_driver::{
    note_resize, restless_message, Command, DriverCommandSender, DriverState, DriverUpdate,
    DriverUpdateState, EventPlan, Synchronization,
};
use agent_terminal::core_model::model::CoreModel;
use agent_terminal::core_model::{
    CoreCommand, CoreSnapshot, CreatedResource, DirectoryPath, SpaceId, TerminalSessionId,
};
use agent_terminal::terminal::{TerminalLifecycle, TerminalSize, TerminalTheme};

#[test]
fn pending_resize_batch_keeps_only_the_latest_geometry_per_terminal() {
    let (queue, commands) = flume::bounded(1);
    let mut sender = DriverCommandSender::new(queue);
    let terminal_session_id = TerminalSessionId::from_u64(7);
    let mut final_size = TerminalSize::new(80, 24, 9, 20);

    for step in 0..512_u16 {
        final_size = TerminalSize::new(80 + step % 40, 24 + step % 10, 9, 20);
        sender
            .resize(terminal_session_id, final_size)
            .expect("coalesce pending resize");
    }

    assert_eq!(commands.len(), 1, "one wake command represents the burst");
    let Command::ResizeBatch { batch_id } = commands.recv().expect("receive resize batch") else {
        panic!("resize burst queued a non-resize command");
    };
    let batch = sender.take_batch(batch_id).expect("take resize batch");

    assert_eq!(batch, vec![(terminal_session_id, final_size)]);
}

#[test]
fn input_command_is_a_barrier_between_resize_batches() {
    let (queue, commands) = flume::unbounded();
    let mut sender = DriverCommandSender::new(queue);
    let terminal_session_id = TerminalSessionId::from_u64(7);
    let before_input = TerminalSize::new(80, 24, 9, 20);
    let after_input = TerminalSize::new(120, 36, 9, 20);

    sender
        .resize(terminal_session_id, before_input)
        .expect("queue resize before input");
    sender
        .send(Command::Input {
            terminal_session_id,
            bytes: vec![b'x'],
        })
        .expect("queue input barrier");
    sender
        .resize(terminal_session_id, after_input)
        .expect("queue resize after input");

    let first_batch_id = match commands.recv().expect("first command") {
        Command::ResizeBatch { batch_id } => batch_id,
        _ => panic!("first command must be the pre-input resize"),
    };
    assert!(matches!(
        commands.recv().expect("second command"),
        Command::Input { .. }
    ));
    let second_batch_id = match commands.recv().expect("third command") {
        Command::ResizeBatch { batch_id } => batch_id,
        _ => panic!("third command must be the post-input resize"),
    };

    assert_eq!(
        sender.take_batch(first_batch_id).expect("first batch"),
        vec![(terminal_session_id, before_input)]
    );
    assert_eq!(
        sender.take_batch(second_batch_id).expect("second batch"),
        vec![(terminal_session_id, after_input)]
    );
}

#[test]
fn batches_list_terminals_in_order_and_are_taken_once() {
    let (queue, _commands) = flume::unbounded();
    let mut sender = DriverCommandSender::new(queue);
    let size = TerminalSize::new(80, 24, 9, 20);
    for id in [9, 3, 5] {
        sender
            .resize(TerminalSessionId::from_u64(id), size)
            .expect("queue resize");
    }
    let batch = sender.take_batch(0).expect("take batch");
    let ids = batch.iter().map(|(id, _)| id.as_u64()).collect::<Vec<_>>();
    assert_eq!(ids, vec![3, 5, 9]);
    assert_eq!(
        sender.take_batch(0),
        Err("window driver resize batch 0 is missing".to_owned())
    );
}

#[test]
fn a_full_or_closed_queue_is_reported() {
    let (queue, commands) = flume::bounded(1);
    let mut sender = DriverCommandSender::new(queue);
    let session = TerminalSessionId::from_u64(1);
    let command = || Command::Input {
        terminal_session_id: session,
        bytes: Vec::new(),
    };
    assert!(sender.accepts_resize());
    assert_eq!(sender.send(command()), Ok(()));
    assert_eq!(
        sender.send(command()),
        Err("window driver command queue is busy".to_owned())
    );
    assert_eq!(
        sender.resize(session, TerminalSize::new(1, 1, 1, 1)),
        Err("window driver command queue is busy".to_owned())
    );
    assert!(sender.take_batch(0).is_err());
    drop(commands);
    assert_eq!(
        sender.send(command()),
        Err("window driver stopped".to_owned())
    );
}

fn hierarchy(revision: u64) -> CoreSnapshot {
    CoreSnapshot {
        revision,
        spaces: Vec::new(),
        terminal_sessions: Vec::new(),
    }
}

fn blank(revision: u64) -> TerminalSnapshot {
    TerminalSnapshot::from_update(TerminalUpdate::empty(revision, TerminalLifecycle::Running))
        .expect("blank terminal")
}

fn rejected(command_id: u64) -> DriverUpdate {
    DriverUpdate::CommandRejected {
        command_id,
        error: "no".into(),
    }
}

#[test]
fn updates_come_by_their_weight_and_results_in_their_order() {
    let mut updates = DriverUpdateState::new();
    assert!(!updates.has_pending());
    updates.publish(DriverUpdate::Terminal {
        terminal_session_id: TerminalSessionId::from_u64(8),
        snapshot: blank(1),
    });
    updates.publish(DriverUpdate::Terminal {
        terminal_session_id: TerminalSessionId::from_u64(4),
        snapshot: blank(1),
    });
    updates.publish(DriverUpdate::Terminal {
        terminal_session_id: TerminalSessionId::from_u64(8),
        snapshot: blank(5),
    });
    updates.publish(DriverUpdate::Error("first".into()));
    updates.publish(DriverUpdate::Error("second".into()));
    updates.publish(rejected(1));
    updates.publish(DriverUpdate::Hierarchy(hierarchy(1)));
    updates.publish(DriverUpdate::CommandAccepted {
        command_id: 2,
        outcome: CoreCommandOutcome {
            revision: 2,
            snapshot: hierarchy(2),
            created: CreatedResource::Nothing,
        },
    });
    updates.publish(DriverUpdate::Hierarchy(hierarchy(2)));
    assert!(updates.has_pending());

    assert!(matches!(
        updates.take_pending(),
        Some(DriverUpdate::Hierarchy(snapshot)) if snapshot.revision == 2
    ));
    assert!(matches!(
        updates.take_pending(),
        Some(DriverUpdate::CommandRejected { command_id: 1, .. })
    ));
    assert!(matches!(
        updates.take_pending(),
        Some(DriverUpdate::CommandAccepted { command_id: 2, .. })
    ));
    assert!(matches!(
        updates.take_pending(),
        Some(DriverUpdate::Error(error)) if error == "second"
    ));
    assert!(matches!(
        updates.take_pending(),
        Some(DriverUpdate::Terminal { terminal_session_id, .. })
            if terminal_session_id.as_u64() == 4
    ));
    assert!(matches!(
        updates.take_pending(),
        Some(DriverUpdate::Terminal { terminal_session_id, snapshot })
            if terminal_session_id.as_u64() == 8 && snapshot.revision == 5
    ));
    assert!(updates.take_pending().is_none());
    assert!(!updates.is_stopped());
    updates.stop();
    assert!(updates.is_stopped());
}

#[test]
fn a_hierarchy_is_told_with_the_terminals_that_are_new() {
    let mut model = CoreModel::new();
    let first = model
        .apply(
            0,
            CoreCommand::CreateSpace {
                name: "First".into(),
                directory: DirectoryPath::from_text("/work"),
            },
        )
        .expect("create Space");
    let session = first.snapshot.terminal_sessions[0].id;
    let mut state = DriverState::new();
    let mut synchronization = Synchronization::begin(&state, first.snapshot.clone());
    assert_eq!(synchronization.next(), Some(session));
    synchronization.accept(blank(3));
    assert_eq!(synchronization.next(), None);
    let updates = synchronization.finish(&mut state);
    assert_eq!(updates.len(), 2);
    assert!(matches!(&updates[0], DriverUpdate::Hierarchy(snapshot) if snapshot.revision == 1));
    assert!(matches!(
        &updates[1],
        DriverUpdate::Terminal { terminal_session_id, snapshot }
            if *terminal_session_id == session && snapshot.revision == 3
    ));

    assert_eq!(
        state.plan_change(&TerminalChange {
            terminal_session_id: session,
            terminal_revision: 3
        }),
        EventPlan::Nothing
    );
    assert_eq!(
        state.plan_change(&TerminalChange {
            terminal_session_id: session,
            terminal_revision: 4
        }),
        EventPlan::RefreshTerminal {
            terminal_session_id: session,
            since: 3
        }
    );
    assert_eq!(
        state.plan_event(&SemanticEventKind::HierarchyChanged { revision: 1 }),
        EventPlan::Nothing
    );
    assert_eq!(
        state.plan_event(&SemanticEventKind::HierarchyChanged { revision: 2 }),
        EventPlan::RefreshHierarchy
    );
    assert!(state.finish_refresh(session, None).is_none());
    assert!(state.finish_refresh(session, Some(blank(4))).is_some());
    assert_eq!(
        state.plan_change(&TerminalChange {
            terminal_session_id: session,
            terminal_revision: 4
        }),
        EventPlan::Nothing
    );

    let second = model
        .apply(
            first.revision,
            CoreCommand::CreateTab {
                space_id: SpaceId::from_u64(first.snapshot.spaces[0].id.as_u64()),
                name: "Terminal".into(),
            },
        )
        .expect("create Tab");
    let added = second.snapshot.terminal_sessions[1].id;
    let again = Synchronization::begin(&state, second.snapshot.clone());
    assert_eq!(again.next(), Some(added));
    assert_eq!(
        again.supersede(added, second.snapshot.clone(), "gone".into()),
        Err("gone".to_owned())
    );
    assert_eq!(
        again.supersede(added, hierarchy(2), "gone".into()),
        Ok(hierarchy(2))
    );
    assert_eq!(
        again.supersede(added, hierarchy(1), "gone".into()),
        Err("gone".to_owned())
    );
}

#[test]
fn the_first_error_of_a_batch_is_kept() {
    let mut first_error = None;
    note_resize(&mut first_error, Ok(()));
    assert_eq!(first_error, None);
    note_resize(&mut first_error, Err("one".into()));
    note_resize(&mut first_error, Err("two".into()));
    assert_eq!(first_error, Some("one".to_owned()));
    assert!(restless_message(true).ends_with("while loading terminal snapshots"));
    assert!(restless_message(false).ends_with("while synchronizing terminal snapshots"));
}

fn space() -> (CoreModel, CoreSnapshot, TerminalSessionId) {
    let mut model = CoreModel::new();
    let commit = model
        .apply(
            0,
            CoreCommand::CreateSpace {
                name: "First".into(),
                directory: DirectoryPath::from_text("/work"),
            },
        )
        .expect("create Space");
    let session = commit.snapshot.terminal_sessions[0].id;
    (model, commit.snapshot, session)
}

fn loaded() -> (CoreModel, DriverState, CoreSnapshot, TerminalSessionId) {
    let (model, snapshot, session) = space();
    let (mut state, step) = load(snapshot.clone());
    let Step::Read(reading) = step else {
        panic!("the terminals of the hierarchy are read");
    };
    assert_eq!(reading.session(), session);
    let Step::Publish(updates) = reading.finish(&mut state, Ok(blank(1))) else {
        panic!("the hierarchy is told");
    };
    assert_eq!(updates.len(), 2);
    (model, state, snapshot, session)
}

#[test]
fn an_accepted_command_is_told_after_the_hierarchy_it_made() {
    let (mut model, mut state, snapshot, _) = loaded();
    let command = CoreCommand::CreateTab {
        space_id: snapshot.spaces[0].id,
        name: "Terminal".into(),
    };
    let step = begin(
        &state,
        DriverEvent::Command(Command::Apply {
            command_id: 5,
            command: command.clone(),
        }),
    );
    let Step::Apply(asked, applying) = step else {
        panic!("the command is applied");
    };
    let commit = model.apply(snapshot.revision, asked).expect("create Tab");
    let outcome = CoreCommandOutcome {
        revision: commit.revision,
        snapshot: commit.snapshot.clone(),
        created: commit.created,
    };
    let Step::Read(reading) = applying.finish(&mut state, Ok(outcome)) else {
        panic!("the new terminal is read");
    };
    assert_eq!(reading.session(), commit.snapshot.terminal_sessions[1].id);
    let Step::Publish(updates) = reading.finish(&mut state, Ok(blank(0))) else {
        panic!("the hierarchy is told");
    };
    assert!(matches!(updates[0], DriverUpdate::Hierarchy(_)));
    assert!(matches!(
        updates.last(),
        Some(DriverUpdate::CommandAccepted { command_id: 5, .. })
    ));
    assert!(matches!(
        begin(
            &state,
            DriverEvent::Semantic(SemanticEventKind::HierarchyChanged {
                revision: commit.revision
            })
        ),
        Step::Publish(updates) if updates.is_empty()
    ));
}

#[test]
fn a_rejected_command_is_told() {
    let (_, mut state, snapshot, _) = loaded();
    let Step::Apply(_, applying) = begin(
        &state,
        DriverEvent::Command(Command::Apply {
            command_id: 9,
            command: CoreCommand::CreateTab {
                space_id: snapshot.spaces[0].id,
                name: "Terminal".into(),
            },
        }),
    ) else {
        panic!("the command is applied");
    };
    assert!(matches!(
        applying.finish(&mut state, Err("stale".into())),
        Step::Publish(updates)
            if matches!(
                updates.as_slice(),
                [DriverUpdate::CommandRejected { command_id: 9, error }] if error == "stale"
            )
    ));
}

#[test]
fn a_terminal_that_vanishes_while_it_is_read_starts_the_hierarchy_over() {
    let (_, snapshot, session) = space();
    let (mut state, step) = load(snapshot.clone());
    let Step::Read(reading) = step else {
        panic!("the terminals of the hierarchy are read");
    };
    let Step::Check(checking) = reading.finish(&mut state, Err("gone".into())) else {
        panic!("a terminal that cannot be read is looked for");
    };
    let mut later = hierarchy(snapshot.revision + 1);
    later.terminal_sessions.clear();
    let Step::Publish(updates) = checking.finish(&mut state, Ok(later.clone())) else {
        panic!("the later hierarchy is told");
    };
    assert!(matches!(updates.as_slice(), [DriverUpdate::Hierarchy(told)] if *told == later));
    assert!(matches!(
        begin(
            &state,
            DriverEvent::TerminalChanged(TerminalChange {
                terminal_session_id: session,
                terminal_revision: 7
            })
        ),
        Step::Publish(updates) if updates.is_empty()
    ));
}

#[test]
fn batches_apply_every_size_and_tell_the_first_error() {
    let size = TerminalSize::new(80, 24, 8, 16);
    let batch = vec![
        (TerminalSessionId::from_u64(1), size),
        (TerminalSessionId::from_u64(2), size),
    ];
    let Step::Resize(resizing) = begin_batch(Ok(batch)) else {
        panic!("sizes are applied");
    };
    assert_eq!(resizing.size().0.as_u64(), 1);
    let Step::Resize(resizing) = resizing.finish(Err("one".into())) else {
        panic!("the other size is applied all the same");
    };
    assert_eq!(resizing.size().0.as_u64(), 2);
    assert!(matches!(
        resizing.finish(Ok(())),
        Step::Publish(updates)
            if matches!(updates.as_slice(), [DriverUpdate::Error(error)] if error == "one")
    ));
    assert!(matches!(
        finish_sent(Ok(())),
        Step::Publish(updates) if updates.is_empty()
    ));
    assert!(matches!(
        finish_sent(Err("closed".into())),
        Step::Publish(updates)
            if matches!(updates.as_slice(), [DriverUpdate::Error(error)] if error == "closed")
    ));
}

#[test]
fn changes_are_followed_and_closed_queues_end_the_driver() {
    let (_, mut state, _, session) = loaded();
    let step = begin(
        &state,
        DriverEvent::TerminalChanged(TerminalChange {
            terminal_session_id: session,
            terminal_revision: 2,
        }),
    );
    assert!(matches!(step, Step::Refresh { since: 1, .. }));
    assert!(matches!(
        finish_refresh(&mut state, session, Ok(Some(blank(2)))),
        Step::Publish(updates) if updates.len() == 1
    ));
    assert!(matches!(
        begin(&state, DriverEvent::CommandsClosed),
        Step::Stop
    ));
    let theme = TerminalTheme {
        foreground: [1; 3],
        background: [2; 3],
        cursor: [3; 3],
        palette: [[4; 3]; 16],
    };
    assert!(matches!(
        begin(
            &state,
            DriverEvent::Command(Command::SetTerminalTheme { theme })
        ),
        Step::SetTheme { theme } if theme.cursor == [3; 3]
    ));
    let step = begin(
        &state,
        DriverEvent::Semantic(SemanticEventKind::HierarchyChanged { revision: 40 }),
    );
    assert!(matches!(step, Step::AskHierarchy));
    assert!(matches!(
        finish_hierarchy(&mut state, Err("away".into())),
        Step::Publish(updates)
            if matches!(updates.as_slice(), [DriverUpdate::Error(error)] if error == "away")
    ));
}
