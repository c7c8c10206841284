use agent_terminal::agent_integration::{AgentProgram, AgentSnapshot, AgentState};
use agent_terminal::application_core::{CoreCommandOutcome, TerminalSnapshot};
use agent_terminal::core_driver::DriverUpdate;
use agent_terminal::core_model::model::CoreModel;
use agent_terminal::core_model::{
    CoreCommand, CoreCommit, CreatedResource, DirectoryPath, PaneId, PaneLayout, SpaceId,
    SplitAxis, SplitPlacement, SplitRatio, TabId, TerminalSessionId,
};
use agent_terminal::gui::agents::{
    agent_summary_for_space, prioritized_agent_summary, SpaceAgentEntry,
};
use agent_terminal::gui::appearance::{
    choose_family, installed_monospace_fonts, packed_color, windows_caption_font_for_build,
    FontFacts, SettingsSection,
};
use agent_terminal::gui::keys::{
    conflict_message, conflicting_action, key_action, pane_close_shortcut_for, reset_conflict_message,
    shortcut_from_keystroke, shortcut_matches, terminal_input_bytes,
    terminal_paste_shortcut_for, KeyAction, KeybindAction, Keystroke, Modifiers,
    PasteShortcutPlatform, Shortcut,
};
use agent_terminal::gui::scene::{
    agent_count_label, agent_row, binding_row, bounded_ratio, chosen_fonts, pane_scene,
    shown_ratio, sidebar_rows, tab_items, window_controls, Desktop, PaneScene,
};
use agent_terminal::gui::selection::{
    first_pane_id, selection_for_created, selection_for_pane, UiSelection,
};
use agent_terminal::gui::view::{
    accept_terminal_snapshot, close_warning, lifecycle_message, AgentLayoutTransition,
    CloseDecision, CloseTarget, MultiplexerView,
};
use agent_terminal::table::Table;
use agent_terminal::terminal::{TerminalLifecycle, TerminalSize};

#[test]
fn compact_agent_summary_keeps_count_and_shows_top_three_by_priority() {
    let agent = |id, program, state| SpaceAgentEntry {
        agent: AgentSnapshot { program, state },
        tab_id: TabId::from_u64(id),
        pane_id: PaneId::from_u64(id),
        terminal_session_id: TerminalSessionId::from_u64(id),
    };
    let summary = prioritized_agent_summary(vec![
        agent(1, AgentProgram::Gemini, AgentState::Unknown),
        agent(2, AgentProgram::Claude, AgentState::Idle),
        agent(3, AgentProgram::Codex, AgentState::Blocked),
        agent(4, AgentProgram::Gemini, AgentState::Working),
    ])
    .expect("agents produce a summary");

    assert_eq!(summary.count, 4);
    assert_eq!(summary.visible.len(), 3);
    assert_eq!(summary.visible[0].agent.state, AgentState::Blocked);
    assert_eq!(summary.visible[1].agent.state, AgentState::Working);
    assert_eq!(summary.visible[2].agent.state, AgentState::Idle);
}

#[test]
fn agents_that_want_as_much_attention_keep_their_order() {
    let agent = |id| SpaceAgentEntry {
        agent: AgentSnapshot {
            program: AgentProgram::Codex,
            state: AgentState::Working,
        },
        tab_id: TabId::from_u64(id),
        pane_id: PaneId::from_u64(id),
        terminal_session_id: TerminalSessionId::from_u64(id),
    };
    let summary = prioritized_agent_summary(vec![agent(9), agent(2), agent(5), agent(1)])
        .expect("agents produce a summary");
    let shown = summary
        .visible
        .iter()
        .map(|entry| entry.pane_id.as_u64())
        .collect::<Vec<_>>();
    assert_eq!(shown, vec![9, 2, 5]);
    assert!(prioritized_agent_summary(Vec::new()).is_none());
}

#[test]
fn named_space_key_maps_to_ascii_space_without_a_key_char() {
    let key = Keystroke {
        key: "space".into(),
        key_char: None,
        ..Default::default()
    };

    assert_eq!(terminal_input_bytes(&key), Some(vec![b' ']));
}

#[test]
fn paste_shortcuts_follow_each_desktop_convention() {
    let key = |modifiers| Keystroke {
        key: "v".into(),
        key_char: None,
        modifiers,
    };
    let command_v = key(Modifiers {
        platform: true,
        ..Default::default()
    });
    let control_v = key(Modifiers {
        control: true,
        ..Default::default()
    });
    let control_shift_v = key(Modifiers {
        control: true,
        shift: true,
        ..Default::default()
    });

    assert!(terminal_paste_shortcut_for(
        &command_v,
        PasteShortcutPlatform::MacOs
    ));
    assert!(terminal_paste_shortcut_for(
        &control_shift_v,
        PasteShortcutPlatform::Linux
    ));
    assert!(terminal_paste_shortcut_for(
        &control_v,
        PasteShortcutPlatform::Windows
    ));
    assert!(terminal_paste_shortcut_for(
        &control_shift_v,
        PasteShortcutPlatform::Windows
    ));
    assert!(!terminal_paste_shortcut_for(
        &control_v,
        PasteShortcutPlatform::Linux
    ));
}

#[test]
fn pane_close_shortcut_is_deliberate_on_every_desktop() {
    let key = |modifiers| Keystroke {
        key: "w".into(),
        key_char: None,
        modifiers,
    };
    let command_shift_w = key(Modifiers {
        platform: true,
        shift: true,
        ..Default::default()
    });
    let control_shift_w = key(Modifiers {
        control: true,
        shift: true,
        ..Default::default()
    });
    let control_w = key(Modifiers {
        control: true,
        ..Default::default()
    });

    assert!(pane_close_shortcut_for(
        &command_shift_w,
        PasteShortcutPlatform::MacOs
    ));
    assert!(pane_close_shortcut_for(
        &control_shift_w,
        PasteShortcutPlatform::Linux
    ));
    assert!(pane_close_shortcut_for(
        &control_shift_w,
        PasteShortcutPlatform::Windows
    ));
    assert!(!pane_close_shortcut_for(
        &control_w,
        PasteShortcutPlatform::Windows
    ));
}

#[test]
fn control_c_remains_terminal_input() {
    let key = Keystroke {
        key: "c".into(),
        key_char: None,
        modifiers: Modifiers {
            control: true,
            ..Default::default()
        },
    };

    assert_eq!(terminal_input_bytes(&key), Some(vec![0x03]));
}

fn typed(key: &str, key_char: Option<&str>, modifiers: Modifiers) -> Keystroke {
    Keystroke {
        key: key.into(),
        key_char: key_char.map(str::to_owned),
        modifiers,
    }
}

#[test]
fn keys_send_what_they_stand_for() {
    let plain = Modifiers::default();
    let send = |key: &str| terminal_input_bytes(&typed(key, None, Modifiers::default()));
    assert_eq!(send("enter"), Some(vec![13]));
    assert_eq!(send("backspace"), Some(vec![0x7f]));
    assert_eq!(send("tab"), Some(vec![9]));
    assert_eq!(send("escape"), Some(vec![27]));
    assert_eq!(send("up"), Some(b"\x1b[A".to_vec()));
    assert_eq!(send("down"), Some(b"\x1b[B".to_vec()));
    assert_eq!(send("right"), Some(b"\x1b[C".to_vec()));
    assert_eq!(send("left"), Some(b"\x1b[D".to_vec()));
    assert_eq!(send("f5"), None);
    assert_eq!(
        terminal_input_bytes(&typed("e", Some("é"), plain)),
        Some("é".as_bytes().to_vec())
    );
    let alt = Modifiers {
        alt: true,
        ..plain
    };
    assert_eq!(terminal_input_bytes(&typed("e", Some("e"), alt)), None);
    let control = Modifiers {
        control: true,
        ..plain
    };
    assert_eq!(
        terminal_input_bytes(&typed("[", None, control)),
        Some(vec![27])
    );
    assert_eq!(terminal_input_bytes(&typed("1", Some("1"), control)), None);
}

#[test]
fn keys_are_taken_in_order_by_recordings_settings_shortcuts_and_terminals() {
    let plain = Modifiers::default();
    let open = Shortcut {
        key: ",".into(),
        control: true,
        alt: false,
        shift: false,
        platform: false,
    };
    let create = Shortcut {
        key: "T".into(),
        control: true,
        alt: false,
        shift: true,
        platform: false,
    };
    let bindings = vec![
        (KeybindAction::OpenSettings, open),
        (KeybindAction::CreateTab, create),
    ];
    let session = TerminalSessionId::from_u64(4);
    let act = |recording, settings_open, focused, key: &Keystroke| {
        key_action(
            recording,
            settings_open,
            &bindings,
            focused,
            PasteShortcutPlatform::Linux,
            key,
        )
    };
    let recording = Some(KeybindAction::ClosePane);
    let control_shift = Modifiers {
        control: true,
        shift: true,
        ..plain
    };
    assert_eq!(
        act(recording, false, None, &typed("Escape", None, plain)),
        KeyAction::CancelRecording
    );
    assert_eq!(
        act(recording, false, None, &typed("backspace", None, plain)),
        KeyAction::ResetBinding(KeybindAction::ClosePane)
    );
    assert_eq!(
        act(recording, false, None, &typed("k", None, plain)),
        KeyAction::RecordBinding(KeybindAction::ClosePane)
    );
    assert_eq!(
        act(None, true, None, &typed("escape", None, plain)),
        KeyAction::CloseSettings
    );
    let new_tab = typed("t", None, control_shift);
    assert_eq!(
        act(None, false, Some(session), &new_tab),
        KeyAction::Perform(KeybindAction::CreateTab)
    );
    assert_eq!(act(None, true, Some(session), &new_tab), KeyAction::Swallow);
    let settings = typed(
        ",",
        None,
        Modifiers {
            control: true,
            ..plain
        },
    );
    assert_eq!(
        act(None, true, Some(session), &settings),
        KeyAction::ToggleSettings
    );
    assert_eq!(
        act(None, false, Some(session), &typed("v", None, control_shift)),
        KeyAction::Paste(session)
    );
    assert_eq!(
        act(None, false, Some(session), &typed("a", Some("a"), plain)),
        KeyAction::Input(session, vec![b'a'])
    );
    assert_eq!(
        act(None, false, None, &typed("a", Some("a"), plain)),
        KeyAction::Pass
    );
    assert_eq!(
        act(None, true, Some(session), &typed("a", Some("a"), plain)),
        KeyAction::Pass
    );
}

#[test]
fn shortcuts_are_recorded_from_keys_and_match_them_again() {
    let key = typed(
        "K",
        None,
        Modifiers {
            control: true,
            ..Modifiers::default()
        },
    );
    let shortcut =
        shortcut_from_keystroke(&key, true).expect("a usable key without the function key");
    assert!(shortcut_from_keystroke(&key, false).is_none());
    assert_eq!(shortcut.key, "K");
    assert!(shortcut_matches(&shortcut, &key));
    let function = typed(
        "K",
        None,
        Modifiers {
            function: true,
            control: true,
            ..Modifiers::default()
        },
    );
    assert!(shortcut_from_keystroke(&function, true).is_none());
    assert!(!shortcut_matches(&shortcut, &function));
    assert_eq!(
        conflict_message("Ctrl+K", "Create tab"),
        "Ctrl+K is already assigned to Create tab"
    );
    assert_eq!(
        reset_conflict_message("Ctrl+K", "Create tab", "Close pane"),
        "Ctrl+K is already assigned to Create tab; change that shortcut before resetting Close pane"
    );
}

#[test]
fn a_taken_shortcut_is_refused_and_recording_goes_on() {
    let shortcut = |key: &str, control| Shortcut {
        key: key.into(),
        control,
        alt: false,
        shift: false,
        platform: false,
    };
    let bindings = vec![
        (KeybindAction::CreateTab, shortcut("k", true)),
        (KeybindAction::ClosePane, shortcut("w", true)),
    ];
    let taken = |action, wanted| conflicting_action(&bindings, action, &wanted);
    assert_eq!(
        taken(KeybindAction::ClosePane, shortcut("K", true)),
        Some(KeybindAction::CreateTab)
    );
    assert_eq!(taken(KeybindAction::CreateTab, shortcut("K", true)), None);
    assert_eq!(taken(KeybindAction::ClosePane, shortcut("k", false)), None);

    let mut window = MultiplexerView::new(CoreModel::new().snapshot(), None);
    window.record_binding(KeybindAction::ClosePane);
    assert_eq!(
        window.accept_shortcut(KeybindAction::ClosePane, "Ctrl+K", Some("Create tab")),
        None
    );
    assert_eq!(window.recording_binding(), Some(KeybindAction::ClosePane));
    assert_eq!(
        window.global_error().as_deref(),
        Some("Ctrl+K is already assigned to Create tab")
    );
    assert_eq!(
        window.accept_shortcut(KeybindAction::ClosePane, "Ctrl+J", None),
        Some(KeybindAction::ClosePane)
    );
    assert_eq!(window.recording_binding(), None);

    window.record_binding(KeybindAction::ClosePane);
    assert_eq!(
        window.reset_shortcut(
            KeybindAction::ClosePane,
            "Close pane",
            "Ctrl+W",
            Some("Create tab")
        ),
        None
    );
    assert_eq!(window.recording_binding(), Some(KeybindAction::ClosePane));
    assert_eq!(
        window.global_error().as_deref(),
        Some(
            "Ctrl+W is already assigned to Create tab; \
             change that shortcut before resetting Close pane"
        )
    );
    assert_eq!(
        window.reset_shortcut(KeybindAction::ClosePane, "Close pane", "Ctrl+W", None),
        Some(KeybindAction::ClosePane)
    );
    assert_eq!(window.recording_binding(), None);
}

#[test]
fn windows_caption_font_follows_the_windows_11_build_boundary() {
    assert_eq!(windows_caption_font_for_build(21_999), "Segoe MDL2 Assets");
    assert_eq!(windows_caption_font_for_build(22_000), "Segoe Fluent Icons");
}

fn directory() -> DirectoryPath {
    DirectoryPath::from_text("/work/project")
}

fn create_space(model: &mut CoreModel, revision: u64, name: &str) -> CoreCommit {
    model
        .apply(
            revision,
            CoreCommand::CreateSpace {
                name: name.into(),
                directory: directory(),
            },
        )
        .expect("create Space")
}

#[test]
fn selection_falls_back_to_valid_space_tab_and_pane_ids() {
    let mut model = CoreModel::new();
    let first = create_space(&mut model, 0, "First");
    let second = create_space(&mut model, first.revision, "Second");
    let selected = UiSelection::initial(&second.snapshot);

    assert_eq!(selected.space_id, Some(second.snapshot.spaces[0].id));
    assert_eq!(selected.tab_id, Some(second.snapshot.spaces[0].tabs[0].id));
    assert!(selected.pane_id.is_some());
    assert_eq!(selected.normalized(&second.snapshot), selected);
}

fn shown_terminal() -> TerminalSnapshot {
    TerminalSnapshot {
        revision: 1,
        lifecycle: TerminalLifecycle::Running,
        active_work: false,
        title: None,
        agent: None,
        cols: 1,
        rows: 1,
        cursor: None,
        default_fg: [0xdd; 3],
        default_bg: [0x11; 3],
        cells: Vec::new(),
    }
}

#[test]
fn late_terminal_updates_cannot_restore_a_closed_terminal_projection() {
    let mut model = CoreModel::new();
    let initial = create_space(&mut model, 0, "Space");
    let pane_id = match &initial.snapshot.spaces[0].tabs[0].layout {
        PaneLayout::Pane(pane) => pane.id,
        PaneLayout::Split(_) => panic!("initial Tab must contain one Pane"),
    };
    let terminal_session_id = initial.snapshot.terminal_sessions[0].id;
    let closed = model
        .apply(initial.revision, CoreCommand::ClosePane { pane_id })
        .expect("close Pane");
    let mut terminals = Table::new();
    let mut terminal_errors = Table::new();

    accept_terminal_snapshot(
        &closed.snapshot,
        &mut terminals,
        &mut terminal_errors,
        terminal_session_id,
        shown_terminal(),
    );

    assert!(!terminals.contains(terminal_session_id.as_u64()));
}

#[test]
fn created_resources_become_the_client_local_selection() {
    let mut model = CoreModel::new();
    let initial = create_space(&mut model, 0, "Space");
    let first_pane = match &initial.snapshot.spaces[0].tabs[0].layout {
        PaneLayout::Pane(pane) => pane.id,
        PaneLayout::Split(_) => panic!("initial Tab must contain one Pane"),
    };
    let split = model
        .apply(
            initial.revision,
            CoreCommand::SplitPane {
                pane_id: first_pane,
                axis: SplitAxis::Horizontal,
                placement: SplitPlacement::After,
                ratio: SplitRatio::equal(),
            },
        )
        .expect("split Pane");
    let CreatedResource::Pane { pane_id, .. } = split.created else {
        panic!("split must identify the new Pane");
    };

    let selection = selection_for_created(UiSelection::default(), &split.created, &split.snapshot);

    assert_eq!(selection.space_id, Some(split.snapshot.spaces[0].id));
    assert_eq!(selection.tab_id, Some(split.snapshot.spaces[0].tabs[0].id));
    assert_eq!(selection.pane_id, Some(pane_id));
}

#[test]
fn moved_pane_selection_follows_it_across_spaces() {
    let mut model = CoreModel::new();
    let first = create_space(&mut model, 0, "First");
    let source_pane = first_pane_id(&first.snapshot.spaces[0].tabs[0].layout).expect("source Pane");
    let second = create_space(&mut model, first.revision, "Second");
    let CreatedResource::Space {
        space_id: target_space,
        pane_id: target_pane,
        ..
    } = second.created
    else {
        panic!("Space creation must identify its Pane");
    };
    let moved = model
        .apply(
            second.revision,
            CoreCommand::MovePane {
                pane_id: source_pane,
                target_pane_id: target_pane,
                axis: SplitAxis::Horizontal,
                placement: SplitPlacement::After,
                ratio: SplitRatio::equal(),
            },
        )
        .expect("move Pane across Spaces");

    let selection = selection_for_pane(source_pane, &moved.snapshot);

    assert_eq!(selection.space_id, Some(target_space));
    assert_eq!(selection.pane_id, Some(source_pane));
}

#[test]
fn seams_stay_within_the_ratios_of_a_split() {
    assert_eq!(bounded_ratio(700).parts_per_thousand(), 700);
    assert_eq!(bounded_ratio(0).parts_per_thousand(), 100);
    assert_eq!(bounded_ratio(1000).parts_per_thousand(), 900);
}

fn window() -> (CoreModel, CoreCommit, MultiplexerView) {
    let mut model = CoreModel::new();
    let commit = create_space(&mut model, 0, "Space");
    let window = MultiplexerView::new(commit.snapshot.clone(), Some("warning".into()));
    (model, commit, window)
}

fn apply(
    model: &mut CoreModel,
    window: &mut MultiplexerView,
    revision: u64,
    command_id: u64,
    command: CoreCommand,
) -> u64 {
    let commit = model.apply(revision, command).expect("apply command");
    window.accept_driver_update(DriverUpdate::Hierarchy(commit.snapshot.clone()));
    window.accept_driver_update(DriverUpdate::CommandAccepted {
        command_id,
        outcome: CoreCommandOutcome {
            revision: commit.revision,
            snapshot: commit.snapshot,
            created: commit.created,
        },
    });
    commit.revision
}

#[test]
fn a_window_follows_commands_and_hierarchies() {
    let (mut model, commit, mut window) = window();
    assert_eq!(window.global_error(), Some("warning".to_owned()));
    let first_pane = window.selection().pane_id.expect("a Pane is shown");
    let split = window
        .split_focused_pane(SplitAxis::Vertical)
        .expect("a Pane has the focus");
    assert_eq!(window.note_submitted(Ok(1)), Some(1));
    assert_eq!(window.global_error(), None);
    let revision = apply(&mut model, &mut window, commit.revision, 1, split);
    let new_pane = window.selection().pane_id.expect("the new Pane is shown");
    assert_ne!(new_pane, first_pane);

    let tab = window.create_tab().expect("a Space is shown");
    let revision = apply(&mut model, &mut window, revision, 2, tab);
    assert_eq!(window.hierarchy().spaces[0].tabs.len(), 2);
    let second_tab = window.hierarchy().spaces[0].tabs[1].id;
    assert_eq!(window.selection().tab_id, Some(second_tab));

    window.toggle_move_focused_pane();
    let moving = window.move_source().expect("a Pane is being moved");
    let (source, command) = window.focus_pane(first_pane).expect("it moves");
    assert_eq!(source, moving);
    window.note_move(source, Ok(3));
    let commit = model.apply(revision, command).expect("move Pane");
    window.accept_driver_update(DriverUpdate::Hierarchy(commit.snapshot.clone()));
    window.accept_driver_update(DriverUpdate::CommandAccepted {
        command_id: 3,
        outcome: CoreCommandOutcome {
            revision: commit.revision,
            snapshot: commit.snapshot,
            created: commit.created,
        },
    });
    assert_eq!(window.selection().pane_id, Some(source));
    assert_eq!(window.move_source(), None);
    window.select_tab(window.hierarchy().spaces[0].tabs[0].id);
    window.select_space(SpaceId::from_u64(99));
    assert_eq!(
        window.selection().space_id,
        Some(window.hierarchy().spaces[0].id)
    );
    assert!(window.focus_pane(first_pane).is_none());
    window.toggle_move_focused_pane();
    window.toggle_move_focused_pane();
    assert_eq!(window.move_source(), None);
}

#[test]
fn rejections_and_errors_are_shown() {
    let (_, _, mut window) = window();
    window.accept_driver_update(DriverUpdate::CommandRejected {
        command_id: 7,
        error: "stale".into(),
    });
    assert_eq!(window.global_error(), Some("stale".to_owned()));
    window.accept_driver_update(DriverUpdate::Error("stopped".into()));
    assert_eq!(window.global_error(), Some("stopped".to_owned()));
    assert_eq!(window.note_submitted(Err("busy".into())), None);
    assert_eq!(window.global_error(), Some("busy".to_owned()));
    window.note_result(Ok(()));
    assert_eq!(window.global_error(), None);
    assert!(window
        .create_space(Err("gone".into()), "Terminal".into())
        .is_none());
    assert_eq!(
        window.global_error(),
        Some("locate current directory: gone".to_owned())
    );
    assert!(window
        .create_space(Ok(directory()), "project".into())
        .is_some());
}

#[test]
fn terminals_at_work_are_asked_about_before_they_close() {
    let (_, commit, mut window) = window();
    let session = commit.snapshot.terminal_sessions[0].id;
    let pane = window.selection().pane_id.expect("a Pane is shown");
    let target = CloseTarget::Pane(pane);
    assert_eq!(
        window.close_target(target),
        CloseDecision::Confirm { active_sessions: 1 }
    );
    assert!(window.confirm_close(target).is_some());
    window.accept_driver_update(DriverUpdate::Terminal {
        terminal_session_id: session,
        snapshot: shown_terminal(),
    });
    assert_eq!(
        window.close_target(target),
        CloseDecision::Close(CoreCommand::ClosePane { pane_id: pane })
    );
    let space = commit.snapshot.spaces[0].id;
    assert_eq!(
        window.close_target(CloseTarget::Space(space)),
        CloseDecision::Close(CoreCommand::CloseSpace { space_id: space })
    );
    assert_eq!(
        window.close_target(CloseTarget::Tab(TabId::from_u64(99))),
        CloseDecision::Nothing
    );
    assert!(window
        .confirm_close(CloseTarget::Tab(TabId::from_u64(99)))
        .is_none());
    assert_eq!(
        close_warning(1),
        "1 terminal session appear to be busy. Closing will stop the running work."
    );
    assert_eq!(
        close_warning(2),
        "2 terminal sessions appear to be busy. Closing will stop the running work."
    );
}

#[test]
fn a_terminal_that_ended_says_so() {
    let (_, commit, mut window) = window();
    let session = commit.snapshot.terminal_sessions[0].id;
    let PaneLayout::Pane(pane) = commit.snapshot.spaces[0].tabs[0].layout.clone() else {
        panic!("initial Tab must contain one Pane");
    };
    assert_eq!(pane_scene(&window, &pane), PaneScene::Starting);
    let mut failed = shown_terminal();
    failed.lifecycle = TerminalLifecycle::Failed("no shell".into());
    window.accept_driver_update(DriverUpdate::Terminal {
        terminal_session_id: session,
        snapshot: failed,
    });
    assert_eq!(
        pane_scene(&window, &pane),
        PaneScene::Terminal {
            inactive: false,
            error: Some("Terminal process failed: no shell".into())
        }
    );
    window.accept_driver_update(DriverUpdate::Terminal {
        terminal_session_id: session,
        snapshot: shown_terminal(),
    });
    assert_eq!(window.terminal_error(session), None);
    assert_eq!(
        lifecycle_message(&TerminalLifecycle::Exited),
        Some("Terminal process exited".to_owned())
    );
    assert_eq!(lifecycle_message(&TerminalLifecycle::Running), None);
}

#[test]
fn a_dragged_seam_is_shown_until_the_split_has_moved() {
    let (mut model, commit, mut window) = window();
    let split = window
        .split_focused_pane(SplitAxis::Horizontal)
        .expect("a Pane has the focus");
    let revision = apply(&mut model, &mut window, commit.revision, 1, split);
    let PaneLayout::Split(split) = window.hierarchy().spaces[0].tabs[0].layout.clone() else {
        panic!("the Tab is split");
    };
    window.begin_split_drag(split.id);
    assert!(window.update_split_drag(Some(bounded_ratio(700))));
    assert!(!window.update_split_drag(Some(bounded_ratio(700))));
    assert_eq!(shown_ratio(&window, &split).parts_per_thousand(), 700);
    let (split_id, ratio) = window.finish_split_drag().expect("it has moved");
    assert_eq!(split_id, split.id);
    window.note_split_resize(split_id, Ok(5));
    let command = CoreCommand::ResizeSplit { split_id, ratio };
    apply(&mut model, &mut window, revision, 5, command);
    assert_eq!(window.preview_ratio(split.id), None);

    window.begin_split_drag(split.id);
    assert!(window.update_split_drag(Some(bounded_ratio(700))));
    assert_eq!(window.finish_split_drag(), None);
    assert_eq!(window.preview_ratio(split.id), None);
    window.begin_split_drag(split.id);
    assert!(!window.update_split_drag(None));
    assert_eq!(window.split_dragging(), None);
    window.begin_split_drag(split.id);
    assert!(window.update_split_drag(Some(bounded_ratio(200))));
    let _ = window.finish_split_drag().expect("it has moved");
    window.note_split_resize(split.id, Err("busy".into()));
    assert_eq!(window.preview_ratio(split.id), None);
}

#[test]
fn sizes_are_asked_for_once() {
    let (_, commit, mut window) = window();
    let session = commit.snapshot.terminal_sessions[0].id;
    let size = TerminalSize::new(80, 24, 9, 20);
    assert!(window.wants_size(session, size));
    window.note_size(session, size, Err("busy".into()));
    assert!(window.wants_size(session, size));
    window.note_size(session, size, Ok(()));
    assert!(!window.wants_size(session, size));
    window.toggle_sidebar();
    assert!(window.sidebar_collapsed());
    assert!(window.wants_size(session, size));
    window.note_size(session, size, Ok(()));
    window.forget_sizes();
    assert!(window.wants_size(session, size));
}

#[test]
fn tabs_are_named_after_titles_directories_and_what_they_came_with() {
    let (_, commit, mut window) = window();
    let session = commit.snapshot.terminal_sessions[0].id;
    let tab = commit.snapshot.spaces[0].tabs[0].clone();
    assert_eq!(window.tab_display_name(&tab, None), "Terminal");
    assert_eq!(
        window.tab_display_name(&tab, Some("project".into())),
        "project"
    );
    let mut titled = shown_terminal();
    titled.title = Some("  vim  ".into());
    window.accept_driver_update(DriverUpdate::Terminal {
        terminal_session_id: session,
        snapshot: titled,
    });
    assert_eq!(window.tab_display_name(&tab, Some("project".into())), "vim");
    let mut named = tab;
    named.name_is_custom = true;
    named.name = "Mine".into();
    assert_eq!(window.tab_display_name(&named, None), "Mine");
    assert_eq!(window.focused_terminal_session_id(), Some(session));
}

#[test]
fn the_sidebar_and_the_title_bar_list_what_is_there() {
    let (mut model, commit, mut window) = window();
    let second = create_space(&mut model, commit.revision, "Second");
    window.accept_driver_update(DriverUpdate::Hierarchy(second.snapshot.clone()));
    let first_session = second.snapshot.terminal_sessions[0].id;
    let second_session = second.snapshot.terminal_sessions[1].id;
    let mut working = shown_terminal();
    working.agent = Some(AgentSnapshot {
        program: AgentProgram::Codex,
        state: AgentState::Blocked,
    });
    window.accept_driver_update(DriverUpdate::Terminal {
        terminal_session_id: second_session,
        snapshot: working,
    });
    let mut names = Table::new();
    names.insert(first_session.as_u64(), "project".to_owned());
    let rows = sidebar_rows(&window, &names);
    assert_eq!(rows.len(), 2);
    assert!(rows[0].selected);
    assert_eq!(rows[0].terminal, Some(("project".to_owned(), 0)));
    assert_eq!(rows[0].agents, None);
    assert!(!rows[1].selected);
    assert_eq!(rows[1].terminal, None);
    let agents = rows[1].agents.as_ref().expect("a program works");
    assert_eq!(agents.count, 1);
    assert_eq!(
        agent_summary_for_space(&second.snapshot.spaces[1], window.terminals()).as_ref(),
        Some(agents)
    );
    let row = agent_row(window.selection(), rows[1].space_id, &agents.visible[0]);
    assert_eq!(row.label, "Codex · Needs attention");
    assert_eq!(row.detail, "Waiting for your input");
    assert!(!row.active);
    let entry = agents.visible[0];
    window.select_agent(rows[1].space_id, entry.tab_id, entry.pane_id);
    assert!(agent_row(window.selection(), rows[1].space_id, &entry).active);
    assert_eq!(agent_count_label(1), "1 agent");
    assert_eq!(agent_count_label(3), "3 agents");

    let tabs = tab_items(&window, &names).expect("a Space is shown");
    assert_eq!(tabs.len(), 1);
    assert!(tabs[0].selected);
    assert_eq!(tabs[0].name, "Terminal");
    let space = rows[1].space_id;
    assert_eq!(
        window.toggle_agents(space),
        AgentLayoutTransition::Expanding
    );
    assert!(window.agents_expanded(space));
    assert!(!window.settle_agents(space, AgentLayoutTransition::Collapsing));
    assert!(window.settle_agents(space, AgentLayoutTransition::Expanding));
    assert_eq!(window.agent_transition(space), None);
    assert_eq!(
        window.toggle_agents(space),
        AgentLayoutTransition::Collapsing
    );
}

#[test]
fn panes_beside_others_are_dimmed_without_the_focus() {
    let (mut model, commit, mut window) = window();
    let split = window
        .split_focused_pane(SplitAxis::Horizontal)
        .expect("a Pane has the focus");
    apply(&mut model, &mut window, commit.revision, 1, split);
    let PaneLayout::Split(split) = window.hierarchy().spaces[0].tabs[0].layout.clone() else {
        panic!("the Tab is split");
    };
    let (PaneLayout::Pane(first), PaneLayout::Pane(second)) = (*split.first, *split.second) else {
        panic!("the split holds two Panes");
    };
    for pane in [&first, &second] {
        window.accept_driver_update(DriverUpdate::Terminal {
            terminal_session_id: pane.terminal_session_id,
            snapshot: shown_terminal(),
        });
    }
    let inactive = |window: &MultiplexerView, pane| {
        matches!(
            pane_scene(window, pane),
            PaneScene::Terminal { inactive: true, .. }
        )
    };
    assert!(inactive(&window, &first));
    assert!(!inactive(&window, &second));
    assert!(window.focus_pane(first.id).is_none());
    assert!(!inactive(&window, &first));
    assert!(inactive(&window, &second));
}

#[test]
fn settings_record_shortcuts_and_change_sections() {
    let (_, _, mut window) = window();
    window.toggle_settings();
    assert!(window.settings_open());
    assert_eq!(window.settings_section(), SettingsSection::Appearance);
    window.select_section(SettingsSection::Keybindings);
    assert_eq!(window.settings_section().label(), "Keybindings");
    assert_eq!(
        window.settings_section().description(),
        "Keyboard shortcuts"
    );
    window.record_binding(KeybindAction::CreateTab);
    assert_eq!(window.global_error(), None);
    let row = binding_row(
        window.recording_binding(),
        KeybindAction::CreateTab,
        "Ctrl+T",
        true,
    );
    assert!(row.recording);
    assert!(row.resettable);
    assert_eq!(row.text, "Press shortcut…");
    let other = binding_row(
        window.recording_binding(),
        KeybindAction::ClosePane,
        "Ctrl+W",
        false,
    );
    assert_eq!(other.text, "Ctrl+W");
    assert!(!other.recording);
    window.stop_recording();
    assert_eq!(window.recording_binding(), None);
    window.close_settings();
    assert!(!window.settings_open());
}

fn font(family: &str, fixed_pitch: bool) -> FontFacts {
    FontFacts {
        family: family.into(),
        fixed_pitch,
    }
}

#[test]
fn fonts_are_chosen_by_request_preference_and_fitness() {
    let available = vec![
        font("lucide", true),
        font("Arial", false),
        font("Zed Mono", true),
        font("menlo", true),
    ];
    let preferred = vec!["Missing".to_owned(), "Menlo".to_owned()];
    assert_eq!(
        choose_family(Some("ZED MONO".into()), &preferred, &available),
        Ok("ZED MONO".to_owned())
    );
    assert_eq!(
        choose_family(Some("Arial".into()), &preferred, &available),
        Ok("Menlo".to_owned())
    );
    assert_eq!(
        choose_family(None, &Vec::new(), &available),
        Ok("Zed Mono".to_owned())
    );
    assert!(choose_family(None, &preferred, &vec![font("Arial", false)]).is_err());
}

#[test]
fn installed_fonts_are_listed_in_order_and_once() {
    let fonts = vec![
        font("Noto Mono", true),
        font("arial mono", true),
        font("Arial Mono", true),
        font("Arial", false),
        font("Lucide", true),
        font("Menlo", true),
    ];
    let listed = installed_monospace_fonts(&fonts);
    assert_eq!(listed, vec!["arial mono", "Menlo", "Noto Mono"]);
    assert_eq!(
        chosen_fonts(&listed, "MENLO"),
        vec![false, true, false]
    );
}

#[test]
fn colors_and_buttons_have_their_signs() {
    assert_eq!(packed_color([0x0b, 0x0e, 0x13]), 0x0b0e13);
    assert!(window_controls(Desktop::MacOs, true, true, true, false).is_none());
    assert!(window_controls(Desktop::Linux, false, true, true, false).is_none());
    let linux = window_controls(Desktop::Linux, true, false, true, true).expect("drawn");
    assert_eq!(linux.minimize, None);
    assert_eq!(linux.maximize, Some("▣"));
    assert_eq!(linux.close, "×");
    let windows = window_controls(Desktop::Windows, false, true, true, false).expect("drawn");
    assert_eq!(windows.minimize, Some("\u{e921}"));
    assert_eq!(windows.maximize, Some("\u{e922}"));
    assert_eq!(windows.close, "\u{e8bb}");
}
