//! When a changed hierarchy is saved.
//!
//! Times are milliseconds since a start that never changes.

use super::{SnapshotRecord, StoredRecord};
use vstd::prelude::*;

verus! {

/// How long a hierarchy stays unchanged before it is saved.
pub const QUIET_SAVE_DELAY: u64 = 500;

/// How long a change waits at most.
pub const MAX_SAVE_DELAY: u64 = 5000;

/// How long a save waits after one that failed.
pub const SAVE_RETRY_DELAY: u64 = 1000;

/// The last time that a deadline can be counted from.
pub const LATEST_TIME: u64 = 18446744073709546615;

/// What is to be saved and since when.
pub struct SaveSchedule {
    durable_generation: u64,
    pending: Option<SnapshotRecord>,
    first_dirty_at: Option<u64>,
    last_mutation_at: Option<u64>,
    retry_not_before: Option<u64>,
}

#[verifier::ext_equal]
pub struct ScheduleView {
    pub durable_generation: u64,
    pub pending: Option<StoredRecord>,
    pub first_dirty_at: Option<u64>,
    pub last_mutation_at: Option<u64>,
    pub retry_not_before: Option<u64>,
}

pub open spec fn option_record(record: Option<SnapshotRecord>) -> Option<StoredRecord> {
    match record {
        Some(record) => Some(record@),
        None => None,
    }
}

impl View for SaveSchedule {
    type V = ScheduleView;

    closed spec fn view(&self) -> ScheduleView {
        ScheduleView {
            durable_generation: self.durable_generation,
            pending: option_record(self.pending),
            first_dirty_at: self.first_dirty_at,
            last_mutation_at: self.last_mutation_at,
            retry_not_before: self.retry_not_before,
        }
    }
}

/// The record to keep of one that waits and one that arrives: the later, and
/// of two with one generation the one that arrives.
pub open spec fn newer(waiting: Option<StoredRecord>, arriving: StoredRecord) -> StoredRecord {
    match waiting {
        Some(record) if arriving.generation < record.generation => record,
        _ => arriving,
    }
}

pub open spec fn earlier_time(left: u64, right: u64) -> u64 {
    if left < right {
        left
    } else {
        right
    }
}

pub open spec fn later_time(left: u64, right: u64) -> u64 {
    if left < right {
        right
    } else {
        left
    }
}

impl ScheduleView {
    /// A record waits exactly where both of its times are known.
    pub open spec fn well_formed(self) -> bool {
        &&& self.pending is Some <==> self.first_dirty_at is Some
        &&& self.pending is Some <==> self.last_mutation_at is Some
        &&& self.pending matches Some(record) ==> record.generation > self.durable_generation
        &&& self.first_dirty_at matches Some(time) ==> time <= LATEST_TIME
        &&& self.last_mutation_at matches Some(time) ==> time <= LATEST_TIME
    }

    pub open spec fn marked(self, record: StoredRecord, now: u64) -> ScheduleView {
        if record.generation <= self.durable_generation {
            self
        } else {
            ScheduleView {
                pending: Some(newer(self.pending, record)),
                first_dirty_at: if self.pending is None {
                    Some(now)
                } else {
                    self.first_dirty_at
                },
                last_mutation_at: Some(now),
                ..self
            }
        }
    }

    /// When to save: after a quiet while, at the latest some time after the
    /// first change, and not too soon after a failure.
    pub open spec fn deadline(self) -> Option<u64> {
        if self.pending is None {
            None
        } else {
            let quiet = (self.last_mutation_at->0 + QUIET_SAVE_DELAY) as u64;
            let hard = (self.first_dirty_at->0 + MAX_SAVE_DELAY) as u64;
            let deadline = earlier_time(quiet, hard);
            match self.retry_not_before {
                None => Some(deadline),
                Some(retry) => Some(later_time(deadline, retry)),
            }
        }
    }

    pub open spec fn saved(self) -> ScheduleView {
        match self.pending {
            None => self,
            Some(record) => ScheduleView {
                durable_generation: record.generation,
                pending: None,
                first_dirty_at: None,
                last_mutation_at: None,
                retry_not_before: None,
            },
        }
    }

    pub open spec fn failed(self, now: u64) -> ScheduleView {
        match self.pending {
            None => self,
            Some(_) => ScheduleView {
                retry_not_before: Some((now + SAVE_RETRY_DELAY) as u64),
                ..self
            },
        }
    }
}

impl SaveSchedule {
    /// Nothing to save after the generation `durable_generation`.
    pub fn new(durable_generation: u64) -> (schedule: Self)
        ensures
            schedule@ == (ScheduleView {
                durable_generation,
                pending: None,
                first_dirty_at: None,
                last_mutation_at: None,
                retry_not_before: None,
            }),
            schedule@.well_formed(),
    {
        SaveSchedule {
            durable_generation,
            pending: None,
            first_dirty_at: None,
            last_mutation_at: None,
            retry_not_before: None,
        }
    }

    pub fn mark_dirty(&mut self, record: SnapshotRecord, now: u64)
        requires
            old(self)@.well_formed(),
            now <= LATEST_TIME,
        ensures
            final(self)@ == old(self)@.marked(record@, now),
            final(self)@.well_formed(),
    {
        if record.generation <= self.durable_generation {
            return ;
        }
        if self.pending.is_none() {
            self.first_dirty_at = Some(now);
        }
        keep_newer(&mut self.pending, record);
        self.last_mutation_at = Some(now);
    }

    pub fn next_deadline(&self) -> (deadline: Option<u64>)
        requires
            self@.well_formed(),
        ensures
            deadline == self@.deadline(),
    {
        if self.pending.is_none() {
            return None;
        }
        let quiet = match self.last_mutation_at {
            Some(time) => time + QUIET_SAVE_DELAY,
            None => return None,
        };
        let hard = match self.first_dirty_at {
            Some(time) => time + MAX_SAVE_DELAY,
            None => return None,
        };
        let deadline = if quiet < hard {
            quiet
        } else {
            hard
        };
        match self.retry_not_before {
            None => Some(deadline),
            Some(retry) => if deadline < retry {
                Some(retry)
            } else {
                Some(deadline)
            },
        }
    }

    /// The record to save, if any.
    pub fn record_to_save(&self) -> (record: Option<SnapshotRecord>)
        ensures
            option_record(record) == self@.pending,
    {
        match &self.pending {
            Some(record) => Some(record.clone()),
            None => None,
        }
    }

    /// Notes that the record to save was saved.
    pub fn finish_save(&mut self)
        requires
            old(self)@.well_formed(),
        ensures
            final(self)@ == old(self)@.saved(),
            final(self)@.well_formed(),
    {
        if let Some(record) = self.pending.take() {
            self.durable_generation = record.generation;
            self.first_dirty_at = None;
            self.last_mutation_at = None;
            self.retry_not_before = None;
        }
    }

    /// Notes that the record to save could not be saved.
    pub fn fail_save(&mut self, now: u64)
        requires
            old(self)@.well_formed(),
            now <= LATEST_TIME,
        ensures
            final(self)@ == old(self)@.failed(now),
            final(self)@.well_formed(),
    {
        if self.pending.is_some() {
            self.retry_not_before = Some(now + SAVE_RETRY_DELAY);
        }
    }
}

/// Keeps the newer of a record that waits and one that arrives.
pub fn keep_newer(waiting: &mut Option<SnapshotRecord>, arriving: SnapshotRecord)
    ensures
        option_record(*final(waiting)) == Some(newer(option_record(*old(waiting)), arriving@)),
{
    let replace = match waiting {
        Some(record) => arriving.generation >= record.generation,
        None => true,
    };
    if replace {
        *waiting = Some(arriving);
    }
}

/// However often the hierarchy changes, it is saved within the longest delay
/// of the first change that is not saved yet, unless a save has failed.
pub proof fn law_changes_do_not_move_the_hard_deadline(
    schedule: ScheduleView,
    record: StoredRecord,
    now: u64,
)
    requires
        schedule.well_formed(),
        schedule.pending is Some,
        schedule.retry_not_before is None,
    ensures
        schedule.marked(record, now).first_dirty_at == schedule.first_dirty_at,
        schedule.marked(record, now).deadline() is Some,
        schedule.marked(record, now).deadline()->0 <= schedule.first_dirty_at->0 + MAX_SAVE_DELAY,
{
}

/// What is saved is the newest record that was marked.
pub proof fn law_the_newest_record_waits(
    schedule: ScheduleView,
    record: StoredRecord,
    now: u64,
)
    requires
        schedule.well_formed(),
        record.generation > schedule.durable_generation,
    ensures
        schedule.marked(record, now).pending is Some,
        schedule.marked(record, now).pending->0.generation >= record.generation,
        schedule.pending matches Some(waiting) ==> schedule.marked(
            record,
            now,
        ).pending->0.generation >= waiting.generation,
{
}

/// A change is saved half a second after the last, and five seconds after the
/// first that is not saved yet at the latest.
pub proof fn law_changes_wait_for_a_quiet_while(
    schedule: ScheduleView,
    record: StoredRecord,
    now: u64,
)
    requires
        schedule.well_formed(),
        schedule.retry_not_before is None,
        record.generation > schedule.durable_generation,
        now <= LATEST_TIME,
    ensures
        ({
            let first = match schedule.first_dirty_at {
                Some(first) => first,
                None => now,
            };
            let deadline = schedule.marked(record, now).deadline();
            &&& deadline is Some
            &&& deadline->0 <= now + 500
            &&& deadline->0 <= first + 5000
            &&& deadline->0 == now + 500 || deadline->0 == first + 5000
        }),
{
}

/// A save that failed is tried again a second later at the earliest, with the
/// record that waits, and the changes since then do not hasten it.
pub proof fn law_failed_saves_are_tried_again(
    schedule: ScheduleView,
    now: u64,
    record: StoredRecord,
    later: u64,
)
    requires
        schedule.well_formed(),
        schedule.pending is Some,
        now <= LATEST_TIME,
        later <= LATEST_TIME,
    ensures
        ({
            let failed = schedule.failed(now);
            &&& failed.pending == schedule.pending
            &&& failed.durable_generation == schedule.durable_generation
            &&& failed.deadline() is Some
            &&& failed.deadline()->0 >= now + 1000
            &&& failed.deadline()->0 == now + 1000 || failed.deadline()->0
                <= schedule.first_dirty_at->0 + 5000
            &&& failed.marked(record, later).deadline() is Some
            &&& failed.marked(record, later).deadline()->0 >= now + 1000
        }),
{
}

/// What was saved is not saved again: nothing waits, and a record of that
/// generation or of an earlier one changes nothing.
pub proof fn law_saved_records_are_not_saved_again(
    schedule: ScheduleView,
    record: StoredRecord,
    now: u64,
)
    requires
        schedule.well_formed(),
        schedule.pending is Some,
    ensures
        schedule.saved().pending is None,
        schedule.saved().deadline() is None,
        record.generation <= schedule.pending->0.generation ==> schedule.saved().marked(record, now)
            == schedule.saved(),
        record.generation > schedule.pending->0.generation ==> schedule.saved().marked(
            record,
            now,
        ).pending == Some(record) && schedule.saved().marked(record, now).retry_not_before is None,
{
}

/// Of a record that waits and one that arrives, the one that arrives is saved
/// unless it is of an earlier generation.
pub proof fn law_earlier_records_do_not_replace_later(
    schedule: ScheduleView,
    record: StoredRecord,
    now: u64,
)
    requires
        schedule.well_formed(),
        schedule.pending is Some,
    ensures
        schedule.marked(record, now).pending == if record.generation
            >= schedule.pending->0.generation {
            Some(record)
        } else {
            schedule.pending
        },
{
}

/// What wakes the saver.
#[derive(Clone, Copy, Debug, PartialEq, Eq, Structural)]
pub enum SaverEvent {
    Dirty,
    Flush,
    Stop,
    Deadline,
    Disconnected,
}

/// Who learns how a save went.
#[derive(Clone, Copy, Debug, PartialEq, Eq, Structural)]
pub enum SaveReport {
    Requester,
    Log,
    Nobody,
}

/// What the saver does when it wakes.
#[derive(Clone, Copy, Debug, PartialEq, Eq, Structural)]
pub struct SaverStep {
    /// Take up the record that was left for the saver.
    pub drain: bool,
    /// Save, and report to whom.
    pub save: Option<SaveReport>,
    pub stop: bool,
}

pub open spec fn spec_saver_step(event: SaverEvent) -> SaverStep {
    SaverStep {
        drain: event != SaverEvent::Deadline,
        save: match event {
            SaverEvent::Dirty => None,
            SaverEvent::Flush => Some(SaveReport::Requester),
            SaverEvent::Stop => Some(SaveReport::Requester),
            SaverEvent::Deadline => Some(SaveReport::Log),
            SaverEvent::Disconnected => Some(SaveReport::Nobody),
        },
        stop: event == SaverEvent::Stop || event == SaverEvent::Disconnected,
    }
}

pub fn saver_step(event: SaverEvent) -> (step: SaverStep)
    ensures
        step == spec_saver_step(event),
{
    match event {
        SaverEvent::Dirty => SaverStep { drain: true, save: None, stop: false },
        SaverEvent::Flush => SaverStep {
            drain: true,
            save: Some(SaveReport::Requester),
            stop: false,
        },
        SaverEvent::Stop => SaverStep {
            drain: true,
            save: Some(SaveReport::Requester),
            stop: true,
        },
        SaverEvent::Deadline => SaverStep {
            drain: false,
            save: Some(SaveReport::Log),
            stop: false,
        },
        SaverEvent::Disconnected => SaverStep {
            drain: true,
            save: Some(SaveReport::Nobody),
            stop: true,
        },
    }
}

/// The saver takes up what was left for it whenever someone wakes it, and saves
/// unless only a change was noted. Whoever asks for a save learns how it went.
/// Only who asks it to stop, or is gone, stops it.
pub proof fn law_savers_save_when_asked(event: SaverEvent)
    ensures
        ({
            let step = spec_saver_step(event);
            &&& step.drain <==> !(event is Deadline)
            &&& step.save is None <==> event is Dirty
            &&& step.save == Some(SaveReport::Requester) <==> (event is Flush || event is Stop)
            &&& step.save == Some(SaveReport::Log) <==> event is Deadline
            &&& step.stop <==> (event is Stop || event is Disconnected)
        }),
{
}

} // verus!
