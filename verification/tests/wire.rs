use agent_terminal::bytes::Decoder;
use agent_terminal::core_model::{
    CoreCommand, CoreModelError, CoreSnapshot, CreatedResource, DirectoryPath, PaneId, PaneLayout,
    PaneSnapshot, SpaceId, SpaceSnapshot, SplitAxis, SplitId, SplitPlacement, SplitRatio,
    SplitSnapshot, TabId, TabSnapshot, TerminalLaunch, TerminalSessionId,
    TerminalSessionSnapshot,
};
use agent_terminal::resident_core::protocol::{
    ControlLease, ControlLeaseDenial, CoreCommandOutcome, Request, Response, SemanticEvent,
    SemanticEventKind, TerminalChange, TerminalUpdate, UiClientId,
};
use agent_terminal::resident_core::wire::command::decode_core_command;
use agent_terminal::resident_core::wire::format::{Tag, Wire, WireError};
use agent_terminal::resident_core::wire::frame::{
    decode_request, decode_response, encode_request, encode_response, expected_frame_len,
};
use agent_terminal::persistence::Corruption;
use agent_terminal::wide::{decode_wide, encode_wide, get_wide, put_wide};
use agent_terminal::terminal::{TerminalCell, TerminalLifecycle, TerminalSize, UpdateError};

#[test]
fn terminal_launch_retains_the_v8_compatibility_byte() {
    let launch = TerminalLaunch::shell(DirectoryPath::from_text("/work/project"));
    let mut path = Vec::new();
    launch
        .working_directory
        .put(&mut path)
        .expect("encode launch path");
    let mut encoded = Vec::new();
    launch.put(&mut encoded).expect("encode Terminal launch");

    assert_eq!(encoded.len(), path.len() + 1);
    assert_eq!(encoded.last(), Some(&0));

    let mut decoder = Decoder::new(&encoded);
    assert_eq!(
        TerminalLaunch::get(&mut decoder).expect("decode v8 Terminal launch"),
        launch
    );
    assert!(decoder.is_finished());
}

#[test]
fn hello_is_one_length_prefixed_binary_frame() {
    let request = Request::Hello {
        version: 0x0201,
        nonce: [0x5a; 32],
    };

    let encoded = encode_request(&request).expect("encode Hello");

    let mut expected = vec![35, 0, 0, 0, 1, 1, 2];
    expected.extend_from_slice(&[0x5a; 32]);
    assert_eq!(encoded, expected);
}

#[test]
fn every_request_round_trips_arbitrary_terminal_bytes() {
    let terminal_session_id = TerminalSessionId::from_u64(16);
    let requests = [
        Request::Hello {
            version: 2,
            nonce: [7; 32],
        },
        Request::Input {
            terminal_session_id,
            lease_generation: 11,
            bytes: vec![0, 0xff, b'\n', b'{', b'}'],
        },
        Request::Paste {
            terminal_session_id,
            lease_generation: 12,
            bytes: "Unicode: 雪\nnext line".as_bytes().to_vec(),
        },
        Request::Resize {
            terminal_session_id,
            lease_generation: 13,
            size: TerminalSize::new(132, 43, 9, 18),
        },
        Request::Snapshot {
            terminal_session_id,
            since: None,
        },
        Request::Snapshot {
            terminal_session_id,
            since: Some(0x0102_0304_0506_0708),
        },
        Request::CoreSnapshot,
        Request::ControlLease {
            terminal_session_id,
        },
        Request::TransferControl {
            terminal_session_id,
            lease_generation: 13,
            target: UiClientId(14),
        },
        Request::AcquireControl {
            terminal_session_id,
            lease_generation: 15,
        },
        Request::Detach,
        Request::StopResidentCore,
    ];

    for request in requests {
        let encoded = encode_request(&request).expect("encode request");
        let decoded = decode_request(&encoded).expect("decode request");
        assert_eq!(decoded, request);
    }
}

#[test]
fn every_core_command_round_trips_without_rust_layout_encoding() {
    let commands = [
        CoreCommand::CreateSpace {
            name: "Workspace λ".into(),
            directory: DirectoryPath::from_text("/work/project"),
        },
        CoreCommand::RenameSpace {
            space_id: SpaceId::from_u64(1),
            name: "Renamed".into(),
        },
        CoreCommand::CreateTab {
            space_id: SpaceId::from_u64(1),
            name: "Tab".into(),
        },
        CoreCommand::RenameTab {
            tab_id: TabId::from_u64(2),
            name: "Renamed Tab".into(),
        },
        CoreCommand::ReorderTab {
            tab_id: TabId::from_u64(2),
            index: 3,
        },
        CoreCommand::SplitPane {
            pane_id: PaneId::from_u64(3),
            axis: SplitAxis::Horizontal,
            placement: SplitPlacement::After,
            ratio: SplitRatio::new(450).expect("valid ratio"),
        },
        CoreCommand::MovePane {
            pane_id: PaneId::from_u64(3),
            target_pane_id: PaneId::from_u64(4),
            axis: SplitAxis::Vertical,
            placement: SplitPlacement::Before,
            ratio: SplitRatio::new(600).expect("valid ratio"),
        },
        CoreCommand::ResizeSplit {
            split_id: SplitId::from_u64(5),
            ratio: SplitRatio::equal(),
        },
        CoreCommand::ClosePane {
            pane_id: PaneId::from_u64(3),
        },
        CoreCommand::CloseTab {
            tab_id: TabId::from_u64(2),
        },
        CoreCommand::CloseSpace {
            space_id: SpaceId::from_u64(1),
        },
    ];

    for command in commands {
        let request = Request::ApplyCoreCommand {
            expected_revision: 42,
            command,
        };
        assert_eq!(
            decode_request(&encode_request(&request).expect("encode Core command"))
                .expect("decode Core command"),
            request
        );
    }
}

#[test]
fn resource_close_commands_reject_missing_and_zero_ids() {
    assert!(decode_core_command(&mut Decoder::new(&[9])).is_err());
    assert!(decode_core_command(&mut Decoder::new(&[10])).is_err());

    let mut zero_id = vec![9];
    zero_id.extend_from_slice(&0_u64.to_le_bytes());
    let error = decode_core_command(&mut Decoder::new(&zero_id))
        .expect_err("CloseTab must reject a zero Tab ID");
    assert_eq!(error, WireError::ZeroId);

    zero_id[0] = 10;
    let error = decode_core_command(&mut Decoder::new(&zero_id))
        .expect_err("CloseSpace must reject a zero Space ID");
    assert_eq!(error, WireError::ZeroId);
}

fn unicode_update() -> TerminalUpdate {
    TerminalUpdate {
        base_revision: None,
        revision: 0x0102_0304_0506_0708,
        lifecycle: TerminalLifecycle::Running,
        cols: 80,
        rows: 24,
        cursor: Some((3, 4)),
        default_fg: [0xdd, 0xdd, 0xdd],
        default_bg: [0x11, 0x11, 0x11],
        dirty_rows: (0..24).collect(),
        cells: (0..24)
            .flat_map(|y| {
                (0..80).map(move |x| TerminalCell {
                    x,
                    y,
                    width: 1,
                    text: if (x, y) == (0, 0) {
                        "λ界".into()
                    } else {
                        String::new()
                    },
                    fg: [0xaa, 0xbb, 0xcc],
                    bg: [0x11, 0x11, 0x11],
                    has_explicit_bg: false,
                })
            })
            .collect(),
    }
}

#[test]
fn every_response_round_trips_a_compact_unicode_snapshot() {
    let terminal_session_id = TerminalSessionId::from_u64(16);
    let core_snapshot = CoreSnapshot {
        revision: 7,
        spaces: Vec::new(),
        terminal_sessions: Vec::new(),
    };
    let snapshot = unicode_update();
    let responses = [
        Response::Ready {
            version: 2,
            proof_bytes: [9; 32],
            client_id: UiClientId(17),
            snapshot: core_snapshot.clone(),
            leases: vec![ControlLease {
                terminal_session_id,
                generation: 18,
                controller: Some(UiClientId(17)),
            }],
            semantic_sequence: 19,
        },
        Response::Ack,
        Response::Snapshot(None),
        Response::Snapshot(Some(snapshot)),
        Response::CoreSnapshot(core_snapshot.clone()),
        Response::CoreCommandAccepted(CoreCommandOutcome {
            revision: core_snapshot.revision,
            snapshot: core_snapshot,
            created: CreatedResource::Nothing,
            control_leases: vec![ControlLease {
                terminal_session_id,
                generation: 18,
                controller: Some(UiClientId(17)),
            }],
        }),
        Response::CoreCommandRejected(CoreModelError::StaleRevision {
            expected: 6,
            actual: 7,
        }),
        Response::TerminalChanged(TerminalChange {
            sequence: 23,
            terminal_session_id,
            terminal_revision: 42,
        }),
        Response::ControlLease(ControlLease {
            terminal_session_id,
            generation: 24,
            controller: Some(UiClientId(25)),
        }),
        Response::ControlLeaseDenied {
            reason: ControlLeaseDenial::HeldByOther,
            lease: ControlLease {
                terminal_session_id,
                generation: 26,
                controller: Some(UiClientId(27)),
            },
        },
        Response::SemanticEvent(SemanticEvent {
            sequence: 28,
            kind: SemanticEventKind::TerminalLifecycleChanged {
                terminal_session_id,
                lifecycle: TerminalLifecycle::Exited,
                terminal_revision: 29,
            },
        }),
        Response::ResnapshotRequired,
        Response::Error("failed: λ".into()),
    ];

    for response in responses {
        let encoded = encode_response(&response).expect("encode response");
        if matches!(response, Response::Snapshot(Some(_))) {
            assert!(
                encoded.len() < 40_000,
                "an 80x24 frame should be compact, got {} bytes",
                encoded.len()
            );
        }
        let decoded = decode_response(&encoded).expect("decode response");
        assert_eq!(decoded, response);
    }
}

#[test]
fn oversized_and_malformed_frames_fail_closed() {
    let oversized_prefix = ((16 * 1024 * 1024_u32) + 1).to_le_bytes();
    let error = expected_frame_len(&oversized_prefix)
        .expect_err("reject oversized frame before reading its payload");
    assert_eq!(error, WireError::FrameTooLarge);

    let truncated = [2, 0, 0, 0, 1];
    assert!(decode_request(&truncated).is_err());

    let unknown_kind = [1, 0, 0, 0, 0xff];
    assert!(decode_request(&unknown_kind).is_err());

    let trailing_byte = [2, 0, 0, 0, 5, 0];
    assert!(decode_request(&trailing_byte).is_err());
}

#[derive(Default)]
struct CountingWriter {
    bytes: Vec<u8>,
    writes: usize,
}

impl std::io::Write for CountingWriter {
    fn write(&mut self, bytes: &[u8]) -> std::io::Result<usize> {
        self.writes += 1;
        self.bytes.extend_from_slice(bytes);
        Ok(bytes.len())
    }

    fn flush(&mut self) -> std::io::Result<()> {
        Ok(())
    }
}

#[test]
fn a_response_is_written_as_one_complete_frame() {
    let mut writer = CountingWriter::default();
    let frame = encode_response(&Response::Error("one frame".into())).expect("encode response");
    std::io::Write::write_all(&mut writer, &frame).expect("write response");

    assert_eq!(writer.writes, 1);
    assert_eq!(
        decode_response(&writer.bytes).expect("decode written response"),
        Response::Error("one frame".into())
    );
}

#[test]
fn a_single_dirty_row_is_a_small_wire_update() {
    let update = TerminalUpdate {
        base_revision: Some(41),
        revision: 42,
        lifecycle: TerminalLifecycle::Running,
        cols: 80,
        rows: 24,
        cursor: Some((4, 7)),
        default_fg: [0xdd; 3],
        default_bg: [0x11; 3],
        dirty_rows: vec![7],
        cells: (0..80)
            .map(|x| TerminalCell {
                x,
                y: 7,
                width: 1,
                text: if x == 4 { "λ".into() } else { String::new() },
                fg: [0xdd; 3],
                bg: [0x11; 3],
                has_explicit_bg: false,
            })
            .collect(),
    };

    let encoded = encode_response(&Response::Snapshot(Some(update.clone())))
        .expect("encode dirty-row update");

    assert!(
        encoded.len() < 1_500,
        "one 80-cell row should remain compact, got {} bytes",
        encoded.len()
    );
    assert_eq!(
        decode_response(&encoded).expect("decode dirty-row update"),
        Response::Snapshot(Some(update))
    );
}

#[test]
fn frames_of_the_largest_size_are_accepted() {
    let prefix = (16 * 1024 * 1024_u32).to_le_bytes();
    assert_eq!(expected_frame_len(&prefix), Ok(16 * 1024 * 1024 + 4));
}

#[test]
fn malformed_frames_name_what_is_wrong() {
    assert_eq!(decode_request(&[1, 0]), Err(WireError::MissingLengthPrefix));
    assert_eq!(decode_request(&[2, 0, 0, 0, 1]), Err(WireError::LengthMismatch));
    assert_eq!(
        decode_request(&[1, 0, 0, 0, 0xff]),
        Err(WireError::InvalidTag(Tag::Request))
    );
    assert_eq!(decode_request(&[1, 0, 0, 0, 1]), Err(WireError::UnexpectedEnd));
}

#[test]
fn text_that_is_no_utf8_is_refused() {
    let mut frame = encode_response(&Response::Error("A".into())).expect("encode response");
    let last = frame.len() - 1;
    frame[last] = 0xff;
    assert_eq!(decode_response(&frame), Err(WireError::NotUtf8));
}

#[test]
fn split_ratios_are_checked_when_they_are_read() {
    let request = Request::ApplyCoreCommand {
        expected_revision: 1,
        command: CoreCommand::ResizeSplit {
            split_id: SplitId::from_u64(5),
            ratio: SplitRatio::equal(),
        },
    };
    let mut frame = encode_request(&request).expect("encode request");
    let end = frame.len();
    frame[end - 2] = 99;
    frame[end - 1] = 0;
    assert_eq!(decode_request(&frame), Err(WireError::InvalidSplitRatio(99)));
}

#[test]
fn hierarchies_arrive_whole() {
    let layout = PaneLayout::Split(SplitSnapshot {
        id: SplitId::from_u64(5),
        axis: SplitAxis::Vertical,
        ratio: SplitRatio::new(300).expect("valid ratio"),
        first: Box::new(PaneLayout::Pane(PaneSnapshot {
            id: PaneId::from_u64(3),
            terminal_session_id: TerminalSessionId::from_u64(4),
        })),
        second: Box::new(PaneLayout::Pane(PaneSnapshot {
            id: PaneId::from_u64(6),
            terminal_session_id: TerminalSessionId::from_u64(7),
        })),
    });
    let sessions = [4, 7]
        .iter()
        .map(|id| TerminalSessionSnapshot {
            id: TerminalSessionId::from_u64(*id),
            launch: TerminalLaunch::shell(DirectoryPath::from_text("/work")),
        })
        .collect();
    let snapshot = CoreSnapshot {
        revision: 9,
        spaces: vec![SpaceSnapshot {
            id: SpaceId::from_u64(1),
            name: "Space".into(),
            name_is_custom: false,
            directory: DirectoryPath::from_text("/work"),
            tabs: vec![TabSnapshot {
                id: TabId::from_u64(2),
                name: "Terminal".into(),
                name_is_custom: false,
                layout,
            }],
        }],
        terminal_sessions: sessions,
    };
    let frame = encode_response(&Response::CoreSnapshot(snapshot.clone())).expect("encode");
    assert_eq!(decode_response(&frame), Ok(Response::CoreSnapshot(snapshot)));
}

#[test]
fn updates_with_cells_outside_their_rows_are_refused() {
    let mut update = unicode_update();
    update.base_revision = Some(1);
    update.dirty_rows = vec![0];
    update.cells.truncate(81);
    let frame = encode_response(&Response::Snapshot(Some(update)));
    assert!(
        frame == Err(WireError::InvalidUpdate(UpdateError::CellOutsideDirtyRows))
            || decode_response(&frame.expect("encode"))
                == Err(WireError::InvalidUpdate(UpdateError::CellOutsideDirtyRows))
    );
}

#[test]
fn wide_paths_are_counted_in_units() {
    let units: Vec<u16> = "C:\\Ünit".encode_utf16().collect();
    let mut message = Vec::new();
    put_wide(&mut message, &units).expect("write a path");
    assert_eq!(&message[..4], &[7, 0, 0, 0]);
    assert_eq!(&message[4..6], &[b'C', 0]);
    assert_eq!(message.len(), 4 + 2 * units.len());
    message.push(9);
    let mut decoder = Decoder::new(&message);
    assert_eq!(get_wide(&mut decoder), Ok(units));
    assert!(!decoder.is_finished());
    assert_eq!(
        get_wide(&mut Decoder::new(&message[..9])),
        Err(WireError::UnexpectedEnd)
    );
    assert_eq!(
        get_wide(&mut Decoder::new(&[1, 0, 128, 0])),
        Err(WireError::PathTooLong)
    );
    assert_eq!(
        get_wide(&mut Decoder::new(&[0, 0, 128, 0])),
        Err(WireError::UnexpectedEnd)
    );
    assert_eq!(WireError::PathTooLong.message(), "path is too long");
}

#[test]
fn wide_paths_are_stored_in_pairs_of_bytes() {
    let units = [0x43, 0x203a, 0xd800];
    let bytes = encode_wide(&units);
    assert_eq!(bytes, [0x43, 0, 0x3a, 0x20, 0, 0xd8]);
    assert_eq!(decode_wide(&bytes), Ok(units.to_vec()));
    assert_eq!(decode_wide(&bytes[..5]), Err(Corruption::OddPath));
    assert_eq!(
        Corruption::OddPath.message(),
        "snapshot Windows path has an odd byte length"
    );
}
