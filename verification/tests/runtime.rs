use agent_terminal::agent_integration::{AgentProgram, AgentSnapshot, AgentState};
use agent_terminal::application_core::exits::pane_for_terminal;
use agent_terminal::application_core::refresh::{
    refresh, ProcessReport, Reported, TerminalReport,
};
use agent_terminal::application_core::runtime::{
    close_confirmation_required, lifecycle_error, tell_refresh, CoreRuntime, ResizePlan,
    RuntimeEvent, RuntimeTerminal, SnapshotPlan,
};
use agent_terminal::application_core::steps::{
    begin, finish_effects, finish_input, finish_paste, finish_render, finish_resize, finish_theme,
    next_poll, Answer, Serve,
};
use agent_terminal::application_core::worker::{
    change_reply, expect_ack, publication, snapshot_reply, ApplicationCore, Publication,
    WorkerRequest, WorkerResponse,
};
use agent_terminal::application_core::{
    apply_terminal_update, RefreshError, TerminalSnapshot, TerminalUpdate,
};
use agent_terminal::core_model::{
    CoreCommand, CoreEffect, CreatedResource, DirectoryPath, TerminalSessionId,
};
use agent_terminal::ghostty::{
    assemble, cell_text, check_cell_count, check_written, dirty_rows, measured_selection,
    paste_capacity, reported_title, result_ok, scroll_capacity, snapshot_text, Cell, Frame,
    SelectionCache, SelectionEventType, Snapshot,
};
use agent_terminal::table::Table;
use agent_terminal::terminal::{
    SnapshotError, TerminalLifecycle, TerminalSize, TerminalTheme,
};

#[test]
fn close_confirmation_tracks_work_after_an_interactive_prompt() {
    assert!(!close_confirmation_required(false, false, false, false));
    assert!(!close_confirmation_required(true, true, false, false));
    assert!(close_confirmation_required(true, false, false, false));
    assert!(close_confirmation_required(false, true, true, false));
    assert!(close_confirmation_required(false, false, false, true));
}

#[test]
fn a_new_full_frame_replaces_an_older_cached_snapshot() {
    let terminal_session_id = TerminalSessionId::from_u64(1);
    let mut snapshots = Table::new();
    snapshots.insert(
        terminal_session_id.as_u64(),
        TerminalSnapshot::from_update(TerminalUpdate::empty(1, TerminalLifecycle::Running))
            .expect("create initial snapshot"),
    );

    let replacement = apply_terminal_update(
        &mut snapshots,
        terminal_session_id,
        TerminalUpdate::empty(2, TerminalLifecycle::Running),
    )
    .expect("replace cache with full frame");

    assert_eq!(replacement.revision, 2);
    assert_eq!(
        snapshots
            .get(terminal_session_id.as_u64())
            .expect("cached snapshot")
            .revision,
        2
    );
}

#[test]
fn rows_without_a_base_are_refused() {
    let session = TerminalSessionId::from_u64(1);
    let mut snapshots: Table<TerminalSnapshot> = Table::new();
    let mut delta = TerminalUpdate::empty(2, TerminalLifecycle::Running);
    delta.base_revision = Some(1);
    let error = apply_terminal_update(&mut snapshots, session, delta).expect_err("no base");
    assert_eq!(error, RefreshError::NoBase(session));
    assert_eq!(error.message(), "Terminal Session 1 has no base snapshot");
    snapshots.insert(
        1,
        TerminalSnapshot::from_update(TerminalUpdate::empty(5, TerminalLifecycle::Running))
            .expect("create snapshot"),
    );
    let mut delta = TerminalUpdate::empty(7, TerminalLifecycle::Running);
    delta.base_revision = Some(6);
    let error = apply_terminal_update(&mut snapshots, session, delta).expect_err("a gap");
    assert_eq!(
        error,
        RefreshError::Snapshot(SnapshotError::RevisionGap {
            local: 5,
            base: Some(6)
        })
    );
    assert_eq!(
        error.message(),
        "terminal revision gap: local 5, update base Some(6)"
    );
}

#[test]
fn unbounded_scroll_output_is_rejected_before_allocation() {
    let error = scroll_capacity(i64::from(u32::MAX), 0)
        .expect_err("reject an unbounded scroll event");

    assert_eq!(error, "terminal scroll output is too large");
}

#[test]
fn scroll_output_has_room_for_each_step() {
    assert_eq!(scroll_capacity(0, 0), Ok(None));
    assert_eq!(scroll_capacity(-3, 2), Ok(Some(640)));
    assert!(scroll_capacity(i64::MIN, i64::MIN).is_err());
}

fn cell(x: u16, y: u16, text: &str) -> Cell {
    Cell {
        x,
        y,
        text: text.into(),
        width: 1,
        fg: [1; 3],
        bg: [2; 3],
        has_explicit_bg: false,
        soft_wrapped: false,
        selected: false,
    }
}

fn frame(title: &[u8]) -> Frame {
    Frame {
        full: true,
        cols: 2,
        rows: 1,
        title: title.to_vec(),
        cursor_x: 1,
        cursor_y: 0,
        cursor_visible: true,
        bracketed_paste: false,
        alternate_screen: false,
        default_fg: [3; 3],
        default_bg: [4; 3],
    }
}

fn rendered(title: &[u8]) -> Snapshot {
    assemble(frame(title), vec![cell(0, 0, "a"), cell(1, 0, "")], None)
}

#[test]
fn frames_become_snapshots_with_clean_titles() {
    let snapshot = rendered(b"  Codex\x07 Settings ");
    assert_eq!(snapshot.title.as_deref(), Some("Codex  Settings"));
    assert_eq!(snapshot.dirty_rows, vec![0]);
    assert_eq!(snapshot.cursor, Some((1, 0)));
    assert_eq!(snapshot_text(&snapshot), "a \n");
    assert_eq!(reported_title(b" \x1b "), None);
    assert_eq!(cell_text(b"\xe7\x8c\xab"), "猫");
    assert_eq!(cell_text(b"\xff"), "\u{fffd}");
    assert_eq!(
        dirty_rows(&vec![cell(0, 1, ""), cell(1, 1, ""), cell(0, 4, "")]),
        vec![1, 4]
    );
}

#[test]
fn what_the_emulator_reports_is_checked() {
    assert_eq!(result_ok(0, "resize"), Ok(()));
    assert!(result_ok(-1, "resize").is_err());
    assert_eq!(paste_capacity(5), Ok(17));
    assert!(paste_capacity(usize::MAX).is_err());
    assert!(check_written("paste", 5, 5).is_ok());
    assert!(check_written("paste", 6, 5).is_err());
    assert!(check_cell_count(3, 3).is_ok());
    assert!(check_cell_count(4, 3).is_err());
    assert!(measured_selection(0).is_ok());
    assert!(measured_selection(-1).is_err());
    let mut cache = SelectionCache::new();
    assert!(!cache.note_event(SelectionEventType::Press));
    assert!(cache.dragging);
    assert!(cache.note_event(SelectionEventType::Release));
    assert!(cache.note_frame(true));
    cache.note_output();
    assert_eq!(cache.text, None);
}

fn start() -> (CoreRuntime, TerminalSessionId) {
    let (mut runtime, commit) = CoreRuntime::start(
        "project".into(),
        DirectoryPath::from_text("/work/project"),
        1,
    )
    .unwrap_or_else(|_| panic!("start Core runtime"));
    for effect in &commit.effects {
        runtime.note_effect(effect, None);
    }
    (runtime, commit.snapshot.terminal_sessions[0].id)
}

#[test]
fn the_registry_holds_a_terminal_for_each_session() {
    let (mut runtime, first) = start();
    assert!(runtime.contains_terminal(first));
    let revision = runtime.model_snapshot().revision;
    let commit = runtime
        .apply(
            revision,
            CoreCommand::CreateSpace {
                name: "Second".into(),
                directory: DirectoryPath::from_text("/work"),
            },
        )
        .expect("create second Space");
    for effect in &commit.effects {
        runtime.note_effect(effect, Some("no shell".into()));
    }
    let CreatedResource::Space {
        terminal_session_id: second,
        pane_id,
        ..
    } = commit.created
    else {
        panic!("Space creation must identify its Terminal Session");
    };
    assert_eq!(runtime.sessions(), vec![first, second]);
    assert_eq!(runtime.terminal_revision(first), Ok(0));
    assert_eq!(runtime.terminal_revision(second), Ok(1));
    assert!(runtime
        .terminal_revision(TerminalSessionId::from_u64(99))
        .is_err());
    assert_eq!(
        pane_for_terminal(&runtime.model_snapshot(), second),
        Some(pane_id)
    );
    let (event, commit) = runtime.close_exited(second);
    assert!(matches!(
        event,
        RuntimeEvent::PaneClosed { terminal_session_id, .. } if terminal_session_id == second
    ));
    assert_eq!(
        commit.effects,
        vec![CoreEffect::StopTerminal {
            terminal_session_id: second
        }]
    );
}

#[test]
fn terminals_count_what_changes() {
    let session = TerminalSessionId::from_u64(3);
    let mut terminal = RuntimeTerminal::spawned();
    terminal.note_drained(Ok(true));
    assert_eq!(terminal.revision, 1);
    let mut updates = Vec::new();
    assert!(!tell_refresh(
        &mut updates,
        session,
        0,
        &TerminalLifecycle::Running,
        &terminal
    ));
    assert_eq!(
        updates,
        vec![RuntimeEvent::TerminalChanged {
            terminal_session_id: session,
            terminal_revision: 1
        }]
    );
    terminal.note_processes(Some(false), Some(AgentProgram::Codex));
    assert_eq!(terminal.agent_program, Some(AgentProgram::Codex));
    assert_eq!(terminal.revision, 2);
    let size = TerminalSize::new(80, 24, 9, 20);
    assert_eq!(terminal.plan_resize(size, size), ResizePlan::Repeat);
    assert_eq!(
        terminal.plan_resize(size, TerminalSize::new(81, 24, 9, 20)),
        ResizePlan::Resize
    );
    assert_eq!(terminal.note_paste(Ok(false)), Ok(false));
    assert_eq!(terminal.revision, 4);
    terminal.note_exit(Err("read".into()), Err("wait".into()));
    assert_eq!(
        terminal.lifecycle,
        TerminalLifecycle::Failed("read; also failed to reap terminal process: wait".into())
    );
    let mut ended = RuntimeTerminal::spawned();
    ended.note_exit(Ok(false), Ok(()));
    let mut updates = Vec::new();
    assert!(tell_refresh(
        &mut updates,
        session,
        0,
        &TerminalLifecycle::Running,
        &ended
    ));
    assert!(updates.is_empty());
    assert_eq!(
        lifecycle_error(&ended.lifecycle),
        "Terminal Session has exited"
    );
}

#[test]
fn snapshots_are_rendered_when_something_is_new() {
    let mut terminal = RuntimeTerminal::spawned();
    assert!(matches!(
        terminal.plan_snapshot(Some(0)),
        SnapshotPlan::Unchanged
    ));
    assert!(matches!(
        terminal.plan_snapshot(None),
        SnapshotPlan::Render { force_full: true }
    ));
    let update = terminal.finish_snapshot(
        rendered(b"Action required"),
        Some(false),
        Some(AgentProgram::Codex),
    );
    assert_eq!(update.base_revision, None);
    assert_eq!(update.title.as_deref(), Some("Action required"));
    assert_eq!(
        update.agent,
        Some(AgentSnapshot {
            program: AgentProgram::Codex,
            state: AgentState::Blocked
        })
    );
    terminal.note_drained(Ok(true));
    assert!(matches!(
        terminal.plan_snapshot(Some(0)),
        SnapshotPlan::Render { force_full: false }
    ));
    let mut failed = RuntimeTerminal::failed("no shell".into());
    assert!(matches!(failed.plan_snapshot(None), SnapshotPlan::Blank(_)));
}

#[test]
fn the_worker_answers_for_terminals_that_are_gone() {
    let (mut runtime, session) = start();
    let gone = TerminalSessionId::from_u64(99);
    let input = |terminal_session_id| WorkerRequest::Input {
        terminal_session_id,
        bytes: vec![b'x'],
    };
    assert!(matches!(
        begin(&mut runtime, input(session)),
        Serve::Input { terminal_session_id, bytes } if terminal_session_id == session
            && bytes == b"x"
    ));
    assert!(matches!(
        begin(&mut runtime, input(gone)),
        Serve::Reply(Answer { response: Ok(WorkerResponse::Ack), change: None, stop: false })
    ));
    assert!(matches!(
        begin(&mut runtime, WorkerRequest::Stop),
        Serve::Reply(Answer { response: Ok(WorkerResponse::Ack), change: None, stop: true })
    ));
    assert!(matches!(change_reply(Ok(true)), Ok(WorkerResponse::Ack)));
    assert!(change_reply(Err("no".into())).is_err());
    assert!(snapshot_reply(Err("no".into()), None, true).is_err());
    assert!(expect_ack(WorkerResponse::Ack).is_ok());
    assert!(expect_ack(WorkerResponse::Snapshot(None)).is_err());
    assert!(matches!(
        publication(RuntimeEvent::TerminalChanged {
            terminal_session_id: session,
            terminal_revision: 2
        }),
        Publication::Change(change) if change.terminal_revision == 2
    ));
}

#[test]
fn an_application_keeps_the_newest_snapshots() {
    let (runtime, session) = start();
    let mut core = ApplicationCore::new(runtime.model_snapshot());
    assert!(core
        .accept_snapshot(
            session,
            WorkerResponse::Snapshot(Some(TerminalUpdate::empty(
                1,
                TerminalLifecycle::Running
            )))
        )
        .is_ok());
    assert_eq!(
        core.accept_snapshot_since(session, WorkerResponse::Snapshot(None)),
        Ok(None)
    );
    assert!(core
        .accept_snapshot(session, WorkerResponse::Ack)
        .is_err());
    assert!(matches!(
        core.command_request(CoreCommand::CloseTab {
            tab_id: runtime.model_snapshot().spaces[0].tabs[0].id
        }),
        WorkerRequest::ApplyCoreCommand {
            expected_revision: 1,
            ..
        }
    ));
}

fn ask_for(since: Option<u64>, terminal_session_id: TerminalSessionId) -> WorkerRequest {
    WorkerRequest::Snapshot {
        terminal_session_id,
        since,
    }
}

#[test]
fn requests_to_a_terminal_without_a_process_are_refused() {
    let (mut runtime, session) = start();
    runtime.put_terminal(session, RuntimeTerminal::failed("no shell".into()));
    let refused = begin(
        &mut runtime,
        WorkerRequest::Resize {
            terminal_session_id: session,
            size: TerminalSize::new(80, 24, 8, 16),
        },
    );
    assert!(matches!(
        refused,
        Serve::Reply(Answer { response: Err(error), change: None, stop: false })
            if error == "Terminal Session failed: no shell"
    ));
    assert!(matches!(
        begin(&mut runtime, ask_for(None, session)),
        Serve::Reply(Answer { response: Ok(WorkerResponse::Snapshot(Some(update))), .. })
            if update.revision == 1 && update.cells.is_empty()
    ));
}

#[test]
fn questions_for_terminals_that_are_gone_are_errors_only_to_those_who_never_knew_them() {
    let (mut runtime, _) = start();
    let gone = TerminalSessionId::from_u64(99);
    assert!(matches!(
        begin(&mut runtime, ask_for(Some(3), gone)),
        Serve::Reply(Answer { response: Ok(WorkerResponse::Snapshot(None)), .. })
    ));
    assert!(matches!(
        begin(&mut runtime, ask_for(None, gone)),
        Serve::Reply(Answer { response: Err(error), .. })
            if error == "Terminal Session 99 does not exist"
    ));
}

#[test]
fn pastes_and_sizes_tell_of_the_change_they_made() {
    let (mut runtime, session) = start();
    let answer = finish_paste(&mut runtime, session, Ok(false));
    assert!(matches!(answer.response, Ok(WorkerResponse::Ack)));
    assert_eq!(answer.change, None);
    let answer = finish_paste(&mut runtime, session, Ok(true));
    assert_eq!(answer.change.expect("a change").terminal_revision, 1);
    let answer = finish_resize(&mut runtime, session, Ok(()));
    assert_eq!(answer.change.expect("a change").terminal_revision, 2);
    let answer = finish_resize(&mut runtime, session, Err("no".into()));
    assert_eq!(answer.change, None);
    assert!(answer.response.is_err());
    assert_eq!(runtime.terminal_revision(session), Ok(3));
    assert!(matches!(finish_input(Ok(())).response, Ok(WorkerResponse::Ack)));
    assert!(finish_input(Err("no".into())).response.is_err());
}

#[test]
fn rendered_screens_are_told_with_their_work() {
    let (mut runtime, session) = start();
    assert!(matches!(
        begin(&mut runtime, ask_for(None, session)),
        Serve::Render { force_full: true, .. }
    ));
    let answer = finish_render(&mut runtime, session, Err("no screen".into()), None, None);
    assert!(matches!(answer.response, Err(error) if error == "no screen"));
    let frame = Frame {
        full: true,
        cols: 2,
        rows: 1,
        title: Vec::new(),
        cursor_x: 0,
        cursor_y: 0,
        cursor_visible: false,
        bracketed_paste: true,
        alternate_screen: false,
        default_fg: [1, 2, 3],
        default_bg: [4, 5, 6],
    };
    let answer = finish_render(
        &mut runtime,
        session,
        Ok(assemble(frame, Vec::new(), None)),
        Some(true),
        None,
    );
    assert!(matches!(
        answer.response,
        Ok(WorkerResponse::Snapshot(Some(update))) if update.active_work && update.cols == 2
    ));
    assert!(matches!(
        begin(&mut runtime, ask_for(Some(0), session)),
        Serve::Reply(Answer { response: Ok(WorkerResponse::Snapshot(None)), .. })
    ));
}

#[test]
fn accepted_commands_are_answered_after_their_effects() {
    let (mut runtime, _) = start();
    let snapshot = runtime.model_snapshot();
    let command = CoreCommand::CreateSpace {
        name: "Second".into(),
        directory: DirectoryPath::from_text("/work/second"),
    };
    let Serve::Effects(commit) = begin(
        &mut runtime,
        WorkerRequest::ApplyCoreCommand {
            expected_revision: snapshot.revision,
            command: command.clone(),
        },
    ) else {
        panic!("the command must be accepted");
    };
    assert_eq!(commit.effects.len(), 1);
    runtime.note_effect(&commit.effects[0], None);
    assert_eq!(runtime.sessions().len(), 2);
    assert!(matches!(
        finish_effects(commit).response,
        Ok(WorkerResponse::CoreCommandAccepted(outcome)) if outcome.revision
            == snapshot.revision + 1
    ));
    assert!(matches!(
        begin(
            &mut runtime,
            WorkerRequest::ApplyCoreCommand {
                expected_revision: snapshot.revision,
                command,
            },
        ),
        Serve::Reply(Answer { response: Ok(WorkerResponse::CoreCommandRejected(_)), .. })
    ));
}

#[test]
fn processes_are_looked_at_when_it_is_time() {
    assert_eq!(next_poll(99, 100), None);
    assert_eq!(next_poll(100, 100), Some(200));
}

#[test]
fn refreshed_terminals_tell_their_changes_and_leave_when_they_end() {
    let (mut runtime, first) = start();
    let revision = runtime.model_snapshot().revision;
    let Ok(commit) = runtime.apply(
        revision,
        CoreCommand::CreateSpace {
            name: "Second".into(),
            directory: DirectoryPath::from_text("/work/second"),
        },
    ) else {
        panic!("create the second Space");
    };
    runtime.note_effect(&commit.effects[0], None);
    let second = commit.snapshot.terminal_sessions[1].id;
    let report = |terminal_session_id, reported| TerminalReport {
        terminal_session_id,
        drained: Ok(true),
        reported,
        processes: None,
    };
    let exited = Reported::Exited {
        output: Ok(false),
        reap: Ok(()),
    };
    let (events, ended) = refresh(
        &mut runtime,
        vec![
            report(first, vec![Reported::Changed]),
            report(second, vec![exited]),
        ],
    );
    assert_eq!(ended, vec![second]);
    assert_eq!(
        events,
        vec![
            RuntimeEvent::TerminalChanged {
                terminal_session_id: first,
                terminal_revision: 1
            },
            RuntimeEvent::PaneClosed {
                terminal_session_id: second,
                revision: commit.revision + 1
            },
        ]
    );
    assert_eq!(runtime.sessions(), vec![first]);
    assert_eq!(runtime.model_snapshot().terminal_sessions.len(), 1);
}

#[test]
fn refreshed_terminals_tell_of_failures_and_of_work() {
    let (mut runtime, session) = start();
    let (events, ended) = refresh(
        &mut runtime,
        vec![TerminalReport {
            terminal_session_id: session,
            drained: Ok(false),
            reported: vec![Reported::Failed("lost".into())],
            processes: Some(ProcessReport {
                foreground: None,
                agent: Some(AgentProgram::Codex),
            }),
        }],
    );
    assert!(ended.is_empty());
    assert_eq!(
        events,
        vec![
            RuntimeEvent::TerminalLifecycleChanged {
                terminal_session_id: session,
                lifecycle: TerminalLifecycle::Failed("lost".into()),
                terminal_revision: 3
            },
            RuntimeEvent::TerminalChanged {
                terminal_session_id: session,
                terminal_revision: 3
            },
        ]
    );
    let terminal = runtime.terminal(session).expect("the terminal");
    assert!(terminal.active_work);
    assert_eq!(terminal.agent_program, Some(AgentProgram::Codex));
}

#[test]
fn colors_are_set_in_the_terminals_that_run() {
    let (mut runtime, session) = start();
    let revision = runtime.model_snapshot().revision;
    let Ok(commit) = runtime.apply(
        revision,
        CoreCommand::CreateSpace {
            name: "Second".into(),
            directory: DirectoryPath::from_text("/work/second"),
        },
    ) else {
        panic!("create the second Space");
    };
    runtime.note_effect(&commit.effects[0], Some("no shell".into()));
    let theme = TerminalTheme {
        foreground: [1; 3],
        background: [2; 3],
        cursor: [3; 3],
        palette: [[4; 3]; 16],
    };
    let Serve::Theme { sessions, .. } =
        begin(&mut runtime, WorkerRequest::SetTerminalTheme { theme })
    else {
        panic!("the colors are set outside");
    };
    assert_eq!(sessions, vec![session]);
    let answer = finish_theme(&mut runtime, &sessions, Ok(()));
    assert!(matches!(answer.response, Ok(WorkerResponse::Ack)));
    assert!(answer.keep);
    assert_eq!(answer.changes.len(), 1);
    assert_eq!(answer.changes[0].terminal_revision, 1);
    let answer = finish_theme(&mut runtime, &sessions, Err("no".into()));
    assert!(answer.response.is_err() && answer.changes.is_empty() && !answer.keep);
    assert_eq!(runtime.terminal_revision(session), Ok(2));
}
