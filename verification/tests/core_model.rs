use agent_terminal::core_model::model::CoreModel;
use agent_terminal::core_model::{
    CoreCommand, CoreEffect, CoreModelError, CoreSnapshot, CreatedResource, DirectoryPath, PaneId,
    PaneLayout, PaneSnapshot, ResourceKind, SpaceId, SplitAxis, SplitId, SplitPlacement,
    SplitRatio, SplitSnapshot, TabId, TabSnapshot, TerminalLaunch, TerminalSessionId,
};


#[test]
fn creating_a_space_commits_one_complete_initial_hierarchy() {
    let mut model = CoreModel::new();

    let commit = model
        .apply(
            0,
            CoreCommand::CreateSpace {
                name: "Project".into(),
                directory: DirectoryPath::from_text("/work/project"),
            },
        )
        .expect("create Space");

    let CreatedResource::Space {
        space_id,
        tab_id,
        pane_id,
        terminal_session_id,
    } = commit.created
    else {
        panic!("Space creation must identify every created resource");
    };
    assert_eq!(commit.revision, 1);
    assert_eq!(commit.snapshot.spaces[0].id, space_id);
    assert!(!commit.snapshot.spaces[0].name_is_custom);
    assert_eq!(commit.snapshot.spaces[0].tabs[0].id, tab_id);
    assert!(!commit.snapshot.spaces[0].tabs[0].name_is_custom);
    assert_eq!(
        commit.snapshot.spaces[0].tabs[0].layout,
        PaneLayout::Pane(PaneSnapshot {
            id: pane_id,
            terminal_session_id,
        })
    );
    assert_eq!(
        commit.effects,
        vec![CoreEffect::LaunchTerminal {
            terminal_session_id,
            launch: TerminalLaunch::shell(DirectoryPath::from_text("/work/project")),
        }]
    );
}

#[test]
fn rejected_commands_change_neither_state_nor_id_allocation() {
    let mut rejected = CoreModel::new();
    let before = rejected.snapshot();
    assert_eq!(
        rejected
            .apply(
                1,
                CoreCommand::CreateSpace {
                    name: "Project".into(),
                    directory: DirectoryPath::from_text("/work/project"),
                },
            )
            .expect_err("stale command must fail"),
        CoreModelError::StaleRevision {
            expected: 1,
            actual: 0,
        }
    );
    assert_eq!(rejected.snapshot(), before);

    let rejected_commit = rejected
        .apply(
            0,
            CoreCommand::CreateSpace {
                name: "Project".into(),
                directory: DirectoryPath::from_text("/work/project"),
            },
        )
        .expect("create after rejection");
    let mut fresh = CoreModel::new();
    let fresh_commit = fresh
        .apply(
            0,
            CoreCommand::CreateSpace {
                name: "Project".into(),
                directory: DirectoryPath::from_text("/work/project"),
            },
        )
        .expect("create in fresh model");
    assert_eq!(rejected_commit.created, fresh_commit.created);
}

#[test]
fn splitting_and_moving_a_pane_preserves_its_terminal_session() {
    let mut model = model_with_space();
    let first_pane = pane_ids(&model.snapshot())[0];
    let split = model
        .apply(
            1,
            CoreCommand::SplitPane {
                pane_id: first_pane,
                axis: SplitAxis::Horizontal,
                placement: SplitPlacement::After,
                ratio: SplitRatio::equal(),
            },
        )
        .expect("split Pane");
    let CreatedResource::Pane {
        pane_id: moved_pane,
        terminal_session_id,
        ..
    } = split.created
    else {
        panic!("split must create a Pane");
    };
    let tab = model
        .apply(
            2,
            CoreCommand::CreateTab {
                space_id: model.snapshot().spaces[0].id,
                name: "Second".into(),
            },
        )
        .expect("create destination Tab");
    let CreatedResource::Tab {
        pane_id: target_pane,
        ..
    } = tab.created
    else {
        panic!("Tab creation must create its initial Pane");
    };

    let moved = model
        .apply(
            3,
            CoreCommand::MovePane {
                pane_id: moved_pane,
                target_pane_id: target_pane,
                axis: SplitAxis::Vertical,
                placement: SplitPlacement::Before,
                ratio: SplitRatio::equal(),
            },
        )
        .expect("move Pane");

    assert!(moved.effects.is_empty());
    assert_eq!(
        session_for_pane(&moved.snapshot, moved_pane),
        terminal_session_id
    );
    assert_eq!(pane_ids(&moved.snapshot).len(), 3);
    assert_eq!(
        moved
            .snapshot
            .terminal_sessions
            .iter()
            .filter(|session| session.id == terminal_session_id)
            .count(),
        1
    );
}

#[test]
fn close_collapses_the_split_and_removes_the_terminal_session() {
    let mut model = model_with_space();
    let original = pane_ids(&model.snapshot())[0];
    let split = model
        .apply(
            1,
            CoreCommand::SplitPane {
                pane_id: original,
                axis: SplitAxis::Horizontal,
                placement: SplitPlacement::After,
                ratio: SplitRatio::equal(),
            },
        )
        .expect("split Pane");
    let CreatedResource::Pane {
        pane_id,
        terminal_session_id,
        ..
    } = split.created
    else {
        panic!("split must create a Pane");
    };

    let closed = model
        .apply(2, CoreCommand::ClosePane { pane_id })
        .expect("close Pane");

    assert_eq!(pane_ids(&closed.snapshot), vec![original]);
    assert!(
        closed
            .snapshot
            .terminal_sessions
            .iter()
            .all(|session| session.id != terminal_session_id)
    );
    assert_eq!(
        closed.effects,
        vec![CoreEffect::StopTerminal {
            terminal_session_id,
        }]
    );
}

#[test]
fn closing_the_pane_of_a_split_undoes_the_split() {
    for axis in [SplitAxis::Horizontal, SplitAxis::Vertical] {
        for placement in [SplitPlacement::Before, SplitPlacement::After] {
            let mut model = model_with_space();
            let before = model.snapshot();
            let split = model
                .apply(
                    1,
                    CoreCommand::SplitPane {
                        pane_id: pane_ids(&before)[0],
                        axis,
                        placement,
                        ratio: SplitRatio::equal(),
                    },
                )
                .expect("split Pane");
            let CreatedResource::Pane { pane_id, .. } = split.created else {
                panic!("split must create a Pane");
            };
            assert_ne!(split.snapshot.spaces, before.spaces);
            let closed = model
                .apply(2, CoreCommand::ClosePane { pane_id })
                .expect("close Pane");
            assert_eq!(closed.snapshot.spaces, before.spaces);
            assert_eq!(closed.snapshot.terminal_sessions, before.terminal_sessions);
        }
    }
}

#[test]
fn commands_take_the_identities_they_say() {
    let mut model = model_with_space();
    let pane_id = pane_ids(&model.snapshot())[0];
    let left = model.remaining_ids();
    let split = CoreCommand::SplitPane {
        pane_id,
        axis: SplitAxis::Vertical,
        placement: SplitPlacement::After,
        ratio: SplitRatio::equal(),
    };
    assert_eq!(split.identities(), 3);
    model.apply(1, split).expect("split Pane");
    assert_eq!(model.remaining_ids(), left - 3);
    let close = CoreCommand::ClosePane { pane_id };
    assert_eq!(close.identities(), 0);
    model.apply(2, close).expect("close Pane");
    assert_eq!(model.remaining_ids(), left - 3);
}

#[test]
fn only_accepted_commands_need_identities() {
    let mut model = CoreModel::with_id_namespace(u64::MAX - 5);
    let create = |name: &str| CoreCommand::CreateSpace {
        name: name.into(),
        directory: DirectoryPath::from_text("/work/project"),
    };
    assert!(model.has_ids_for(0, &create("Project")));
    let commit = model.apply(0, create("Project")).expect("create Space");
    let CreatedResource::Space { pane_id, .. } = commit.created else {
        panic!("Space creation must identify every created resource");
    };
    assert_eq!(model.remaining_ids(), 1);
    assert!(!model.has_ids_for(1, &create("Project")));
    assert!(model.has_ids_for(0, &create("Project")), "a stale command is rejected");
    assert!(model.has_ids_for(1, &create(" ")), "an invalid name is rejected");
    let split = |pane_id| CoreCommand::SplitPane {
        pane_id,
        axis: SplitAxis::Vertical,
        placement: SplitPlacement::After,
        ratio: SplitRatio::equal(),
    };
    assert!(!model.has_ids_for(1, &split(pane_id)));
    assert!(model.has_ids_for(1, &split(PaneId::from_u64(1))), "a missing Pane is rejected");
    assert!(model.has_ids_for(1, &CoreCommand::ClosePane { pane_id }));
}

#[test]
fn closed_resources_leave_their_identities_unused() {
    let mut model = model_with_space();
    let pane_id = pane_ids(&model.snapshot())[0];
    let split = CoreCommand::SplitPane {
        pane_id,
        axis: SplitAxis::Horizontal,
        placement: SplitPlacement::Before,
        ratio: SplitRatio::equal(),
    };
    let first = model.apply(1, split.clone()).expect("split Pane");
    let CreatedResource::Pane { pane_id: made, split_id, terminal_session_id } = first.created
    else {
        panic!("split must create a Pane");
    };
    model
        .apply(2, CoreCommand::ClosePane { pane_id: made })
        .expect("close Pane");
    let second = model.apply(3, split).expect("split Pane again");
    let CreatedResource::Pane { pane_id: again, .. } = second.created else {
        panic!("split must create a Pane");
    };
    let greatest = made
        .as_u64()
        .max(split_id.as_u64())
        .max(terminal_session_id.as_u64());
    assert!(again.as_u64() > greatest);
}

#[test]
fn closing_a_tab_stops_its_terminals_once_and_preserves_unrelated_resources() {
    let mut model = model_with_space();
    let source_space_id = model.snapshot().spaces[0].id;
    let tab_id = model.snapshot().spaces[0].tabs[0].id;
    let first_pane_id = pane_ids(&model.snapshot())[0];
    let first_terminal_session_id = session_for_pane(&model.snapshot(), first_pane_id);
    let split = model
        .apply(
            1,
            CoreCommand::SplitPane {
                pane_id: first_pane_id,
                axis: SplitAxis::Horizontal,
                placement: SplitPlacement::After,
                ratio: SplitRatio::equal(),
            },
        )
        .expect("split Tab before closing it");
    let CreatedResource::Pane {
        terminal_session_id: second_terminal_session_id,
        ..
    } = split.created
    else {
        panic!("split must identify its Terminal Session");
    };
    let sibling = model
        .apply(
            2,
            CoreCommand::CreateTab {
                space_id: source_space_id,
                name: "Sibling".into(),
            },
        )
        .expect("create sibling Tab");
    let CreatedResource::Tab {
        tab_id: sibling_tab_id,
        terminal_session_id: sibling_terminal_session_id,
        ..
    } = sibling.created
    else {
        panic!("Tab creation must identify its resources");
    };
    let unrelated = model
        .apply(
            3,
            CoreCommand::CreateSpace {
                name: "Unrelated".into(),
                directory: DirectoryPath::from_text("/work/unrelated"),
            },
        )
        .expect("create unrelated Space");
    let CreatedResource::Space {
        space_id: unrelated_space_id,
        terminal_session_id: unrelated_terminal_session_id,
        ..
    } = unrelated.created
    else {
        panic!("Space creation must identify its resources");
    };

    let closed = model
        .apply(4, CoreCommand::CloseTab { tab_id })
        .expect("close Tab");

    assert_eq!(closed.revision, 5);
    assert_eq!(closed.snapshot.spaces.len(), 2);
    assert_eq!(closed.snapshot.spaces[0].id, source_space_id);
    assert_eq!(closed.snapshot.spaces[0].tabs.len(), 1);
    assert_eq!(closed.snapshot.spaces[0].tabs[0].id, sibling_tab_id);
    assert_eq!(closed.snapshot.spaces[1].id, unrelated_space_id);
    assert_eq!(
        closed
            .snapshot
            .terminal_sessions
            .iter()
            .map(|session| session.id)
            .collect::<Vec<_>>(),
        vec![sibling_terminal_session_id, unrelated_terminal_session_id]
    );
    assert_eq!(
        closed.effects,
        vec![
            CoreEffect::StopTerminal {
                terminal_session_id: first_terminal_session_id,
            },
            CoreEffect::StopTerminal {
                terminal_session_id: second_terminal_session_id,
            },
        ]
    );
}

#[test]
fn closing_an_unknown_tab_is_rejected_without_changing_the_hierarchy() {
    let mut model = model_with_space();
    let before = model.snapshot();

    assert_eq!(
        model
            .apply(
                before.revision,
                CoreCommand::CloseTab {
                    tab_id: TabId::from_u64(u64::MAX),
                },
            )
            .expect_err("unknown Tab must be rejected"),
        CoreModelError::NotFound {
            kind: ResourceKind::Tab,
            id: u64::MAX,
        }
    );
    assert_eq!(model.snapshot(), before);
}

#[test]
fn closing_a_space_stops_its_terminals_and_preserves_other_spaces() {
    let mut model = model_with_space();
    let closed_space_id = model.snapshot().spaces[0].id;
    let closed_terminal_session_id = model.snapshot().terminal_sessions[0].id;
    let unrelated = model
        .apply(
            1,
            CoreCommand::CreateSpace {
                name: "Unrelated".into(),
                directory: DirectoryPath::from_text("/work/unrelated"),
            },
        )
        .expect("create unrelated Space");
    let CreatedResource::Space {
        space_id: unrelated_space_id,
        terminal_session_id: unrelated_terminal_session_id,
        ..
    } = unrelated.created
    else {
        panic!("Space creation must identify its resources");
    };

    let closed = model
        .apply(
            2,
            CoreCommand::CloseSpace {
                space_id: closed_space_id,
            },
        )
        .expect("close Space");

    assert_eq!(closed.revision, 3);
    assert_eq!(closed.snapshot.spaces.len(), 1);
    assert_eq!(closed.snapshot.spaces[0].id, unrelated_space_id);
    assert_eq!(closed.snapshot.terminal_sessions.len(), 1);
    assert_eq!(
        closed.snapshot.terminal_sessions[0].id,
        unrelated_terminal_session_id
    );
    assert_eq!(
        closed.effects,
        vec![CoreEffect::StopTerminal {
            terminal_session_id: closed_terminal_session_id,
        }]
    );
}

#[test]
fn closing_an_unknown_space_is_rejected_without_changing_the_hierarchy() {
    let mut model = model_with_space();
    let before = model.snapshot();

    assert_eq!(
        model
            .apply(
                before.revision,
                CoreCommand::CloseSpace {
                    space_id: SpaceId::from_u64(u64::MAX),
                },
            )
            .expect_err("unknown Space must be rejected"),
        CoreModelError::NotFound {
            kind: ResourceKind::Space,
            id: u64::MAX,
        }
    );
    assert_eq!(model.snapshot(), before);
}

#[test]
fn moving_the_only_pane_out_of_a_space_removes_the_empty_space() {
    let mut model = model_with_space();
    let source_space = model.snapshot().spaces[0].id;
    let moved_pane = pane_ids(&model.snapshot())[0];
    let moved_session = session_for_pane(&model.snapshot(), moved_pane);
    let destination = model
        .apply(
            1,
            CoreCommand::CreateSpace {
                name: "Destination".into(),
                directory: DirectoryPath::from_text("/work/destination"),
            },
        )
        .expect("create destination Space");
    let CreatedResource::Space {
        pane_id: target_pane,
        ..
    } = destination.created
    else {
        panic!("Space creation must return its initial Pane");
    };

    let moved = model
        .apply(
            2,
            CoreCommand::MovePane {
                pane_id: moved_pane,
                target_pane_id: target_pane,
                axis: SplitAxis::Horizontal,
                placement: SplitPlacement::After,
                ratio: SplitRatio::equal(),
            },
        )
        .expect("move final Pane out of source Space");

    assert!(
        moved
            .snapshot
            .spaces
            .iter()
            .all(|space| space.id != source_space)
    );
    assert_eq!(session_for_pane(&moved.snapshot, moved_pane), moved_session);
    assert!(moved.effects.is_empty());
}

#[test]
fn closing_the_last_pane_removes_its_empty_tab_and_space() {
    let mut model = model_with_space();
    let pane_id = pane_ids(&model.snapshot())[0];

    let closed = model
        .apply(1, CoreCommand::ClosePane { pane_id })
        .expect("close final Pane");

    assert!(closed.snapshot.spaces.is_empty());
    assert!(closed.snapshot.terminal_sessions.is_empty());
}

#[test]
fn tab_order_names_and_split_ratio_are_revisioned() {
    let mut model = model_with_space();
    let space_id = model.snapshot().spaces[0].id;
    let original_tab = model.snapshot().spaces[0].tabs[0].id;
    let original_pane = pane_ids(&model.snapshot())[0];
    let second = model
        .apply(
            1,
            CoreCommand::CreateTab {
                space_id,
                name: "Second".into(),
            },
        )
        .expect("create second Tab");
    let CreatedResource::Tab { tab_id, .. } = second.created else {
        panic!("Tab creation must return its ID");
    };
    model
        .apply(2, CoreCommand::ReorderTab { tab_id, index: 0 })
        .expect("reorder Tab");
    model
        .apply(
            3,
            CoreCommand::RenameTab {
                tab_id: original_tab,
                name: "Shell".into(),
            },
        )
        .expect("rename Tab");
    let split = model
        .apply(
            4,
            CoreCommand::SplitPane {
                pane_id: original_pane,
                axis: SplitAxis::Vertical,
                placement: SplitPlacement::After,
                ratio: SplitRatio::equal(),
            },
        )
        .expect("split Pane");
    let CreatedResource::Pane { split_id, .. } = split.created else {
        panic!("split must return its ID");
    };
    let ratio = SplitRatio::new(650).expect("valid ratio");
    let final_commit = model
        .apply(5, CoreCommand::ResizeSplit { split_id, ratio })
        .expect("resize split");

    assert_eq!(final_commit.revision, 6);
    assert_eq!(final_commit.snapshot.spaces[0].tabs[0].id, tab_id);
    let renamed_tab = find_tab(&final_commit.snapshot, original_tab);
    assert_eq!(renamed_tab.name, "Shell");
    assert!(renamed_tab.name_is_custom);
    assert_eq!(
        find_split_snapshot(&final_commit.snapshot, split_id).ratio,
        ratio
    );
}

#[test]
fn invalid_move_and_ratio_are_structured_rejections() {
    assert_eq!(
        SplitRatio::new(99).expect_err("too-small ratio must fail"),
        CoreModelError::InvalidSplitRatio(99)
    );
    let mut model = model_with_space();
    let pane_id = pane_ids(&model.snapshot())[0];
    let before = model.snapshot();
    assert_eq!(
        model
            .apply(
                1,
                CoreCommand::MovePane {
                    pane_id,
                    target_pane_id: pane_id,
                    axis: SplitAxis::Horizontal,
                    placement: SplitPlacement::After,
                    ratio: SplitRatio::equal(),
                },
            )
            .expect_err("self move must fail"),
        CoreModelError::CannotMovePaneOntoItself
    );
    assert_eq!(model.snapshot(), before);
}

fn model_with_space() -> CoreModel {
    let mut model = CoreModel::new();
    model
        .apply(
            0,
            CoreCommand::CreateSpace {
                name: "Project".into(),
                directory: DirectoryPath::from_text("/work/project"),
            },
        )
        .expect("create test Space");
    model
}

fn pane_ids(snapshot: &CoreSnapshot) -> Vec<PaneId> {
    let mut panes = Vec::new();
    for tab in snapshot.spaces.iter().flat_map(|space| &space.tabs) {
        collect_panes(&tab.layout, &mut panes);
    }
    panes
}

fn collect_panes(layout: &PaneLayout, panes: &mut Vec<PaneId>) {
    match layout {
        PaneLayout::Pane(pane) => panes.push(pane.id),
        PaneLayout::Split(split) => {
            collect_panes(&split.first, panes);
            collect_panes(&split.second, panes);
        }
    }
}

fn session_for_pane(snapshot: &CoreSnapshot, pane_id: PaneId) -> TerminalSessionId {
    snapshot
        .spaces
        .iter()
        .flat_map(|space| &space.tabs)
        .find_map(|tab| find_pane(&tab.layout, pane_id))
        .expect("Pane exists")
        .terminal_session_id
}

fn find_pane(layout: &PaneLayout, pane_id: PaneId) -> Option<&PaneSnapshot> {
    match layout {
        PaneLayout::Pane(pane) if pane.id == pane_id => Some(pane),
        PaneLayout::Pane(_) => None,
        PaneLayout::Split(split) => {
            find_pane(&split.first, pane_id).or_else(|| find_pane(&split.second, pane_id))
        }
    }
}

fn find_tab(snapshot: &CoreSnapshot, tab_id: TabId) -> &TabSnapshot {
    snapshot
        .spaces
        .iter()
        .flat_map(|space| &space.tabs)
        .find(|tab| tab.id == tab_id)
        .expect("Tab exists")
}

fn find_split_snapshot(snapshot: &CoreSnapshot, split_id: SplitId) -> &SplitSnapshot {
    snapshot
        .spaces
        .iter()
        .flat_map(|space| &space.tabs)
        .find_map(|tab| find_split_in_layout(&tab.layout, split_id))
        .expect("split exists")
}

fn find_split_in_layout(layout: &PaneLayout, split_id: SplitId) -> Option<&SplitSnapshot> {
    match layout {
        PaneLayout::Pane(_) => None,
        PaneLayout::Split(split) if split.id == split_id => Some(split),
        PaneLayout::Split(split) => find_split_in_layout(&split.first, split_id)
            .or_else(|| find_split_in_layout(&split.second, split_id)),
    }
}
