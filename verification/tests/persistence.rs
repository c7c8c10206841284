use agent_terminal::core_model::{
    DirectoryPath, PaneId, SpaceId, SplitAxis, SplitId, SplitRatio, TabId,
};
use agent_terminal::persistence::schedule::{
    keep_newer, saver_step, SaveReport, SaveSchedule, SaverEvent, MAX_SAVE_DELAY,
    QUIET_SAVE_DELAY, SAVE_RETRY_DELAY,
};
use agent_terminal::persistence::snapshot::{
    decode_snapshot, encode_snapshot, DecodeError, SCHEMA_VERSION,
};
use agent_terminal::persistence::store::{
    inspect_bytes, load, profile_directory, publish, refuse_length, PublishError, Slot, SlotName,
    SnapshotLoad,
};
use agent_terminal::persistence::{
    PersistedCoreLayout, PersistedLaunch, PersistedPane, PersistedPaneLayout, PersistedSpace,
    PersistedSplit, PersistedTab, RestoreDisposition, SnapshotRecord,
};

fn pane(id: u64, restore_disposition: RestoreDisposition) -> PersistedPaneLayout {
    PersistedPaneLayout::Pane(PersistedPane {
        id: PaneId::from_u64(id),
        launch: PersistedLaunch {
            working_directory: DirectoryPath::from_text("/work/project"),
            restore_disposition,
        },
    })
}

fn populated_layout() -> PersistedCoreLayout {
    PersistedCoreLayout {
        next_id: 8,
        spaces: vec![PersistedSpace {
            id: SpaceId::from_u64(1),
            name: "Persistent Space".into(),
            directory: DirectoryPath::from_text("/work/project"),
            tabs: vec![PersistedTab {
                id: TabId::from_u64(2),
                name: "Terminal".into(),
                layout: PersistedPaneLayout::Split(PersistedSplit {
                    id: SplitId::from_u64(7),
                    axis: SplitAxis::Vertical,
                    ratio: SplitRatio::new(650).expect("valid ratio"),
                    first: Box::new(pane(3, RestoreDisposition::Relaunch)),
                    second: Box::new(pane(5, RestoreDisposition::RemainEnded)),
                }),
            }],
        }],
    }
}

fn record(generation: u64) -> SnapshotRecord {
    SnapshotRecord {
        generation,
        layout: populated_layout(),
    }
}

#[test]
fn binary_snapshot_round_trips_the_complete_layout() {
    let record = record(7);
    let bytes = encode_snapshot(&record).expect("encode snapshot");

    assert_eq!(decode_snapshot(&bytes).ok(), Some(record));
}

#[test]
fn checksum_corruption_is_rejected() {
    let record = record(1);
    let mut bytes = encode_snapshot(&record).expect("encode snapshot");
    let last = bytes.last_mut().expect("non-empty snapshot");
    *last ^= 0xff;

    assert!(matches!(
        decode_snapshot(&bytes),
        Err(DecodeError::Corrupt(reason)) if reason.message().contains("checksum")
    ));
}

fn write(slots: &mut [Vec<u8>; 2], record: &SnapshotRecord) {
    let first = read(&slots[0]);
    let second = read(&slots[1]);
    let (name, bytes) = publish(record, &first, &second).expect("publish generation");
    match name {
        SlotName::First => slots[0] = bytes,
        SlotName::Second => slots[1] = bytes,
    }
}

fn read(bytes: &[u8]) -> Slot {
    if bytes.is_empty() {
        Slot::Absent
    } else {
        inspect_bytes(bytes)
    }
}

#[test]
fn ab_store_retains_the_previous_valid_generation() {
    let mut slots = [Vec::new(), Vec::new()];
    let first = record(1);
    let second = record(2);
    write(&mut slots, &first);
    write(&mut slots, &second);
    assert_eq!(load(read(&slots[0]), read(&slots[1])), SnapshotLoad::Ready(second));
    slots[1] = b"broken".to_vec();

    assert_eq!(load(read(&slots[0]), read(&slots[1])), SnapshotLoad::Ready(first));
}

#[test]
fn newer_schema_blocks_loading_and_publication() {
    let record = record(1);
    let mut bytes = encode_snapshot(&record).expect("encode snapshot");
    bytes[8..12].copy_from_slice(&(SCHEMA_VERSION + 1).to_le_bytes());
    let newer = inspect_bytes(&bytes);

    assert_eq!(
        publish(&record, &newer, &Slot::Absent),
        Err(PublishError::IncompatibleNewer {
            schema_version: SCHEMA_VERSION + 1
        })
    );
    assert_eq!(
        load(newer, Slot::Absent),
        SnapshotLoad::IncompatibleNewer {
            schema_version: SCHEMA_VERSION + 1
        }
    );
}

#[test]
fn continuous_mutations_do_not_move_the_hard_save_deadline() {
    let start = 1_000_000;
    let mut schedule = SaveSchedule::new(0);
    schedule.mark_dirty(record(1), start);
    schedule.mark_dirty(record(2), start + MAX_SAVE_DELAY - 10);

    assert_eq!(schedule.next_deadline(), Some(start + MAX_SAVE_DELAY));
}

#[test]
fn a_flush_saves_the_newest_record() {
    let mut latest = None;
    keep_newer(&mut latest, record(1));
    keep_newer(&mut latest, record(2));
    let step = saver_step(SaverEvent::Flush);
    assert!(step.drain);
    assert_eq!(step.save, Some(SaveReport::Requester));
    assert!(!step.stop);
    let mut schedule = SaveSchedule::new(0);
    schedule.mark_dirty(latest.expect("a record waits"), 10);
    let mut slots = [Vec::new(), Vec::new()];
    let saved = schedule.record_to_save().expect("a record to save");
    write(&mut slots, &saved);
    schedule.finish_save();

    assert_eq!(
        load(read(&slots[0]), read(&slots[1])),
        SnapshotLoad::Ready(record(2))
    );
    assert!(schedule.record_to_save().is_none());
    assert_eq!(schedule.next_deadline(), None);
}

#[test]
fn only_the_newest_record_waits_for_the_saver() {
    let mut latest = None;
    for generation in 1..=8 {
        keep_newer(&mut latest, record(generation));
    }
    keep_newer(&mut latest, record(3));

    assert_eq!(latest.map(|record| record.generation), Some(8));
}

#[test]
fn a_quiet_hierarchy_is_saved_soon_and_a_failed_save_is_tried_again() {
    let mut schedule = SaveSchedule::new(4);
    schedule.mark_dirty(record(4), 100);
    assert_eq!(schedule.next_deadline(), None);
    schedule.mark_dirty(record(5), 100);
    assert_eq!(schedule.next_deadline(), Some(100 + QUIET_SAVE_DELAY));
    schedule.fail_save(700);
    assert_eq!(schedule.next_deadline(), Some(700 + SAVE_RETRY_DELAY));
    assert!(!saver_step(SaverEvent::Dirty).stop);
    assert_eq!(saver_step(SaverEvent::Deadline).save, Some(SaveReport::Log));
    assert!(saver_step(SaverEvent::Disconnected).stop);
}

#[test]
fn generations_at_the_ends_of_the_range_are_not_published() {
    assert_eq!(
        publish(&record(0), &Slot::Absent, &Slot::Absent),
        Err(PublishError::Generation)
    );
    assert_eq!(
        publish(&record(u64::MAX), &Slot::Absent, &Slot::Absent),
        Err(PublishError::Generation)
    );
}

#[test]
fn broken_files_are_named_corrupt() {
    assert!(matches!(inspect_bytes(b"broken"), Slot::Corrupt(_)));
    assert!(refuse_length(16 * 1024 * 1024 + 1).is_some());
    assert!(refuse_length(16 * 1024 * 1024).is_none());
    let mut bytes = encode_snapshot(&record(1)).expect("encode snapshot");
    bytes.pop();
    assert!(matches!(inspect_bytes(&bytes), Slot::Corrupt(_)));
    bytes[0] ^= 1;
    assert!(matches!(inspect_bytes(&bytes), Slot::Corrupt(_)));
    assert!(matches!(
        load(Slot::Corrupt("a".into()), Slot::Absent),
        SnapshotLoad::Corrupt { .. }
    ));
    assert_eq!(load(Slot::Absent, Slot::Absent), SnapshotLoad::Absent);
}

#[test]
fn profiles_name_their_directories() {
    assert_eq!(
        profile_directory("default.1_a-b"),
        Ok("profiles/default.1_a-b".to_owned())
    );
    assert!(profile_directory("").is_err());
    assert!(profile_directory("a/b").is_err());
    assert_eq!(SlotName::First.file_name(), "snapshot-a.bin");
    assert_eq!(
        SlotName::Second.temporary_name(12, 3),
        ".snapshot-b.bin.tmp-12-3"
    );
}
