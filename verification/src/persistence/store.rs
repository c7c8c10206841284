//! The two files that take turns in holding the newest record.

use super::format::Stored;
use super::snapshot::{
    decode_snapshot, encode_snapshot, law_snapshots_round_trip, parse_snapshot, snapshot_file,
    DecodeError, EncodeError, MAX_SNAPSHOT_BYTES,
};
use super::{PersistedCoreLayout, SnapshotRecord, StoredRecord};
use crate::crypto::sha256;
use crate::text::{characters, decimal, decimal_chars};
use vstd::prelude::*;
use vstd::string::*;

verus! {

/// One of the two files.
#[derive(Clone, Copy, Debug, PartialEq, Eq, Structural)]
pub enum SlotName {
    First,
    Second,
}

impl SlotName {
    pub open spec fn spec_file_name(self) -> Seq<char> {
        match self {
            SlotName::First => "snapshot-a.bin"@,
            SlotName::Second => "snapshot-b.bin"@,
        }
    }

    pub fn file_name(self) -> (name: &'static str)
        ensures
            name@ == self.spec_file_name(),
    {
        match self {
            SlotName::First => "snapshot-a.bin",
            SlotName::Second => "snapshot-b.bin",
        }
    }

    /// The name of the file that is written before it takes the slot's name.
    pub fn temporary_name(self, process: u32, sequence: u64) -> (name: String)
        ensures
            name@ == "."@ + self.spec_file_name() + ".tmp-"@ + decimal_chars(process as nat)
                + "-"@ + decimal_chars(sequence as nat),
    {
        let mut name = ".".to_owned();
        name.append(self.file_name());
        name.append(".tmp-");
        name.append(decimal(process as u64).as_str());
        name.append("-");
        name.append(decimal(sequence).as_str());
        name
    }
}

/// What one of the files holds.
#[derive(Debug, PartialEq, Eq)]
pub enum Slot {
    Ready(SnapshotRecord),
    Absent,
    IncompatibleNewer { schema_version: u32 },
    Corrupt(String),
}

#[verifier::ext_equal]
pub enum SlotView {
    Ready(StoredRecord),
    Absent,
    IncompatibleNewer { schema_version: u32 },
    Corrupt(Seq<char>),
}

impl View for Slot {
    type V = SlotView;

    open spec fn view(&self) -> SlotView {
        match *self {
            Slot::Ready(record) => SlotView::Ready(record@),
            Slot::Absent => SlotView::Absent,
            Slot::IncompatibleNewer { schema_version } => {
                SlotView::IncompatibleNewer { schema_version }
            },
            Slot::Corrupt(reason) => SlotView::Corrupt(reason@),
        }
    }
}

/// What both files come to.
#[derive(Debug, PartialEq, Eq)]
pub enum SnapshotLoad {
    Ready(SnapshotRecord),
    Absent,
    IncompatibleNewer { schema_version: u32 },
    Corrupt { reason: String },
}

#[verifier::ext_equal]
pub enum LoadView {
    Ready(StoredRecord),
    Absent,
    IncompatibleNewer { schema_version: u32 },
    Corrupt { reason: Seq<char> },
}

impl View for SnapshotLoad {
    type V = LoadView;

    open spec fn view(&self) -> LoadView {
        match *self {
            SnapshotLoad::Ready(record) => LoadView::Ready(record@),
            SnapshotLoad::Absent => LoadView::Absent,
            SnapshotLoad::IncompatibleNewer { schema_version } => {
                LoadView::IncompatibleNewer { schema_version }
            },
            SnapshotLoad::Corrupt { reason } => LoadView::Corrupt { reason: reason@ },
        }
    }
}

/// What a file of the given contents holds.
pub open spec fn slot_of(bytes: Seq<u8>) -> SlotView {
    match parse_snapshot(bytes) {
        Ok(record) => SlotView::Ready(record),
        Err(DecodeError::IncompatibleNewer { schema_version }) => {
            SlotView::IncompatibleNewer { schema_version }
        },
        Err(DecodeError::Corrupt(corruption)) => SlotView::Corrupt(corruption.spec_message()),
    }
}

/// What a file of the given contents holds.
pub fn inspect_bytes(bytes: &[u8]) -> (slot: Slot)
    ensures
        slot@ == slot_of(bytes@),
{
    match decode_snapshot(bytes) {
        Ok(record) => Slot::Ready(record),
        Err(DecodeError::IncompatibleNewer { schema_version }) => {
            Slot::IncompatibleNewer { schema_version }
        },
        Err(DecodeError::Corrupt(corruption)) => Slot::Corrupt(corruption.message()),
    }
}

/// The objection to a file of `length` bytes, before it is read.
pub fn refuse_length(length: u64) -> (refusal: Option<Slot>)
    ensures
        length <= MAX_SNAPSHOT_BYTES ==> refusal is None,
        length > MAX_SNAPSHOT_BYTES ==> refusal is Some && refusal->0@ == SlotView::Corrupt(
            "file exceeds 16777216 bytes"@,
        ),
{
    if length > MAX_SNAPSHOT_BYTES as u64 {
        Some(Slot::Corrupt("file exceeds 16777216 bytes".to_owned()))
    } else {
        None
    }
}

pub open spec fn larger(left: u32, right: u32) -> u32 {
    if left > right {
        left
    } else {
        right
    }
}

/// What is wrong with a file, by its name.
pub open spec fn complaint(name: SlotName, reason: Seq<char>) -> Seq<char> {
    name.spec_file_name() + ": "@ + reason
}

/// What both files come to: a schema that is too new rules out everything
/// else, then the later record counts, and of two with one generation the
/// second.
pub open spec fn loaded(first: SlotView, second: SlotView) -> LoadView {
    match (first, second) {
        (
            SlotView::IncompatibleNewer { schema_version: left },
            SlotView::IncompatibleNewer { schema_version: right },
        ) => LoadView::IncompatibleNewer { schema_version: larger(left, right) },
        (SlotView::IncompatibleNewer { schema_version }, _) => {
            LoadView::IncompatibleNewer { schema_version }
        },
        (_, SlotView::IncompatibleNewer { schema_version }) => {
            LoadView::IncompatibleNewer { schema_version }
        },
        (SlotView::Ready(left), SlotView::Ready(right)) => LoadView::Ready(
            if left.generation > right.generation {
                left
            } else {
                right
            },
        ),
        (SlotView::Ready(record), _) => LoadView::Ready(record),
        (_, SlotView::Ready(record)) => LoadView::Ready(record),
        (SlotView::Corrupt(left), SlotView::Corrupt(right)) => LoadView::Corrupt {
            reason: complaint(SlotName::First, left) + "; "@ + complaint(SlotName::Second, right),
        },
        (SlotView::Corrupt(reason), SlotView::Absent) => LoadView::Corrupt {
            reason: complaint(SlotName::First, reason),
        },
        (SlotView::Absent, SlotView::Corrupt(reason)) => LoadView::Corrupt {
            reason: complaint(SlotName::Second, reason),
        },
        (SlotView::Absent, SlotView::Absent) => LoadView::Absent,
    }
}

fn complain(name: SlotName, reason: &String) -> (text: String)
    ensures
        text@ == complaint(name, reason@),
{
    let mut text = name.file_name().to_owned();
    text.append(": ");
    text.append(reason.as_str());
    text
}

/// What both files come to.
pub fn load(first: Slot, second: Slot) -> (load: SnapshotLoad)
    ensures
        load@ == loaded(first@, second@),
{
    match (first, second) {
        (
            Slot::IncompatibleNewer { schema_version: left },
            Slot::IncompatibleNewer { schema_version: right },
        ) => SnapshotLoad::IncompatibleNewer {
            schema_version: if left > right {
                left
            } else {
                right
            },
        },
        (Slot::IncompatibleNewer { schema_version }, _) => {
            SnapshotLoad::IncompatibleNewer { schema_version }
        },
        (_, Slot::IncompatibleNewer { schema_version }) => {
            SnapshotLoad::IncompatibleNewer { schema_version }
        },
        (Slot::Ready(left), Slot::Ready(right)) => {
            if left.generation > right.generation {
                SnapshotLoad::Ready(left)
            } else {
                SnapshotLoad::Ready(right)
            }
        },
        (Slot::Ready(record), _) => SnapshotLoad::Ready(record),
        (_, Slot::Ready(record)) => SnapshotLoad::Ready(record),
        (Slot::Corrupt(left), Slot::Corrupt(right)) => {
            let mut reason = complain(SlotName::First, &left);
            reason.append("; ");
            reason.append(complain(SlotName::Second, &right).as_str());
            SnapshotLoad::Corrupt { reason }
        },
        (Slot::Corrupt(reason), Slot::Absent) => SnapshotLoad::Corrupt {
            reason: complain(SlotName::First, &reason),
        },
        (Slot::Absent, Slot::Corrupt(reason)) => SnapshotLoad::Corrupt {
            reason: complain(SlotName::Second, &reason),
        },
        (Slot::Absent, Slot::Absent) => SnapshotLoad::Absent,
    }
}

/// The file to be written next: the one with the older record, or without one.
pub open spec fn target(first: SlotView, second: SlotView) -> SlotName {
    match (first, second) {
        (SlotView::Ready(left), SlotView::Ready(right)) => if left.generation > right.generation {
            SlotName::Second
        } else {
            SlotName::First
        },
        (SlotView::Ready(_), _) => SlotName::Second,
        _ => SlotName::First,
    }
}

pub fn choose_target(first: &Slot, second: &Slot) -> (name: SlotName)
    ensures
        name == target(first@, second@),
{
    match (first, second) {
        (Slot::Ready(left), Slot::Ready(right)) => if left.generation > right.generation {
            SlotName::Second
        } else {
            SlotName::First
        },
        (Slot::Ready(_), _) => SlotName::Second,
        _ => SlotName::First,
    }
}

/// Why a record is not published.
#[derive(Clone, Copy, Debug, PartialEq, Eq, Structural)]
pub enum PublishError {
    Generation,
    IncompatibleNewer { schema_version: u32 },
    Encode(EncodeError),
}

impl PublishError {
    pub open spec fn spec_message(self) -> Seq<char> {
        match self {
            PublishError::Generation => "snapshot generation is outside the supported range"@,
            PublishError::IncompatibleNewer { schema_version } => "snapshot schema "@
                + decimal_chars(schema_version as nat) + " is newer than supported schema 1"@,
            PublishError::Encode(error) => error.spec_message(),
        }
    }

    pub fn message(self) -> (message: String)
        ensures
            message@ == self.spec_message(),
    {
        match self {
            PublishError::Generation => {
                "snapshot generation is outside the supported range".to_owned()
            },
            PublishError::IncompatibleNewer { schema_version } => {
                let mut message = "snapshot schema ".to_owned();
                message.append(decimal(schema_version as u64).as_str());
                message.append(" is newer than supported schema 1");
                message
            },
            PublishError::Encode(error) => error.message(),
        }
    }
}

/// The file to write and its contents, or why nothing is written.
pub open spec fn publication(record: StoredRecord, first: SlotView, second: SlotView) -> Result<
    (SlotName, Seq<u8>),
    PublishError,
> {
    if record.generation == 0 || record.generation == u64::MAX {
        Err(PublishError::Generation)
    } else {
        match (first, second) {
            (SlotView::IncompatibleNewer { schema_version }, _) => Err(
                PublishError::IncompatibleNewer { schema_version },
            ),
            (_, SlotView::IncompatibleNewer { schema_version }) => Err(
                PublishError::IncompatibleNewer { schema_version },
            ),
            _ => match snapshot_file(record) {
                Err(error) => Err(PublishError::Encode(error)),
                Ok(bytes) => Ok((target(first, second), bytes)),
            },
        }
    }
}

/// The file to write and its contents.
pub fn publish(record: &SnapshotRecord, first: &Slot, second: &Slot) -> (result: Result<
    (SlotName, Vec<u8>),
    PublishError,
>)
    ensures
        match publication(record@, first@, second@) {
            Ok((name, bytes)) => {
                &&& result matches Ok((chosen, file)) && chosen == name && file@ == bytes
            },
            Err(error) => result is Err && result->Err_0 == error,
        },
{
    if record.generation == 0 || record.generation == u64::MAX {
        return Err(PublishError::Generation);
    }
    if let Slot::IncompatibleNewer { schema_version } = first {
        return Err(PublishError::IncompatibleNewer { schema_version: *schema_version });
    }
    if let Slot::IncompatibleNewer { schema_version } = second {
        return Err(PublishError::IncompatibleNewer { schema_version: *schema_version });
    }
    match encode_snapshot(record) {
        Err(error) => Err(PublishError::Encode(error)),
        Ok(file) => Ok((choose_target(first, second), file)),
    }
}

/// The files after `written` has taken the place of the one called `name`.
pub open spec fn replaced(
    first: SlotView,
    second: SlotView,
    name: SlotName,
    written: SlotView,
) -> (SlotView, SlotView) {
    match name {
        SlotName::First => (written, second),
        SlotName::Second => (first, written),
    }
}

/// Whatever becomes of the file that is written, the record that was loaded
/// before is still there; and it is what is loaded unless the new file holds a
/// record of at least its generation or a newer schema.
pub proof fn law_publication_keeps_the_previous_record(
    first: SlotView,
    second: SlotView,
    written: SlotView,
)
    requires
        loaded(first, second) is Ready,
    ensures
        ({
            let previous = loaded(first, second)->Ready_0;
            let (left, right) = replaced(first, second, target(first, second), written);
            &&& left == SlotView::Ready(previous) || right == SlotView::Ready(previous)
            &&& match written {
                SlotView::Ready(record) => if record.generation > previous.generation {
                    loaded(left, right) == LoadView::Ready(record)
                } else if record.generation < previous.generation {
                    loaded(left, right) == LoadView::Ready(previous)
                } else {
                    true
                },
                SlotView::IncompatibleNewer { .. } => true,
                _ => loaded(left, right) == LoadView::Ready(previous),
            }
        }),
{
}

/// A schema that is too new is neither loaded nor overwritten.
pub proof fn law_newer_schemas_block(record: StoredRecord, first: SlotView, second: SlotView)
    requires
        first is IncompatibleNewer || second is IncompatibleNewer,
    ensures
        loaded(first, second) is IncompatibleNewer,
        publication(record, first, second) is Err,
{
}

/// Of two records the one of the later generation is loaded, and a record beside
/// a file that holds none.
pub proof fn law_the_latest_record_is_loaded(first: SlotView, second: SlotView)
    requires
        !(first is IncompatibleNewer),
        !(second is IncompatibleNewer),
    ensures
        loaded(first, second) is Ready <==> (first is Ready || second is Ready),
        loaded(first, second) matches LoadView::Ready(record) ==> {
            &&& first == SlotView::Ready(record) || second == SlotView::Ready(record)
            &&& first matches SlotView::Ready(other) ==> record.generation >= other.generation
            &&& second matches SlotView::Ready(other) ==> record.generation >= other.generation
        },
        loaded(first, second) is Absent <==> (first is Absent && second is Absent),
{
}

/// Where no record can be loaded, each damaged file is named with what is wrong
/// with it.
pub proof fn law_damaged_files_are_named(left: Seq<char>, right: Seq<char>)
    ensures
        loaded(SlotView::Corrupt(left), SlotView::Absent) == (LoadView::Corrupt {
            reason: "snapshot-a.bin"@ + ": "@ + left,
        }),
        loaded(SlotView::Absent, SlotView::Corrupt(right)) == (LoadView::Corrupt {
            reason: "snapshot-b.bin"@ + ": "@ + right,
        }),
        loaded(SlotView::Corrupt(left), SlotView::Corrupt(right)) == (LoadView::Corrupt {
            reason: ("snapshot-a.bin"@ + ": "@ + left) + "; "@ + ("snapshot-b.bin"@ + ": "@
                + right),
        }),
{
}

/// Of two schemas that are too new, the newer is told of.
pub proof fn law_the_newest_schema_is_told_of(first: SlotView, second: SlotView)
    ensures
        loaded(first, second) matches LoadView::IncompatibleNewer { schema_version } ==> {
            &&& first == (SlotView::IncompatibleNewer { schema_version }) || second == (
            SlotView::IncompatibleNewer { schema_version })
            &&& first matches SlotView::IncompatibleNewer { schema_version: other }
                ==> schema_version >= other
            &&& second matches SlotView::IncompatibleNewer { schema_version: other }
                ==> schema_version >= other
        },
{
}

/// A record that is published after all others is what is loaded next.
pub proof fn law_published_records_are_loaded(
    record: StoredRecord,
    first: SlotView,
    second: SlotView,
)
    requires
        publication(record, first, second) is Ok,
        PersistedCoreLayout::readable(record.layout),
        sha256(PersistedCoreLayout::form(record.layout)).len() == 32,
        first matches SlotView::Ready(other) ==> other.generation < record.generation,
        second matches SlotView::Ready(other) ==> other.generation < record.generation,
    ensures
        ({
            let (name, bytes) = publication(record, first, second)->Ok_0;
            let (left, right) = replaced(first, second, name, slot_of(bytes));
            loaded(left, right) == LoadView::Ready(record)
        }),
{
    law_snapshots_round_trip(record);
}

/// The first and the last generation are not published: before the one and after
/// the other there is none.
pub proof fn law_generations_have_neighbours(
    record: StoredRecord,
    first: SlotView,
    second: SlotView,
)
    ensures
        publication(record, first, second) == Err::<(SlotName, Seq<u8>), PublishError>(
            PublishError::Generation,
        ) <==> !(1 <= record.generation < u64::MAX),
{
}

/// Whether `character` may stand in a profile.
pub open spec fn profile_character(character: char) -> bool {
    ||| 'a' <= character <= 'z'
    ||| 'A' <= character <= 'Z'
    ||| '0' <= character <= '9'
    ||| character == '.'
    ||| character == '_'
    ||| character == '-'
}

/// Whether every character of `profile` may stand in one.
pub open spec fn profile_characters(profile: Seq<char>) -> bool {
    forall|i: int| 0 <= i < profile.len() ==> profile_character(#[trigger] profile[i])
}

pub fn is_profile_character(character: char) -> (accepted: bool)
    ensures
        accepted == profile_character(character),
{
    ('a' <= character && character <= 'z') || ('A' <= character && character <= 'Z') || ('0'
        <= character && character <= '9') || character == '.' || character == '_' || character
        == '-'
}

/// Whether `profile` is made of ASCII letters, digits, dots, underscores and
/// hyphens.
pub fn has_profile_characters(profile: &str) -> (accepted: bool)
    ensures
        accepted == profile_characters(profile@),
{
    let chars = characters(profile);
    let mut index: usize = 0;
    while index < chars.len()
        invariant
            index <= chars@.len(),
            chars@ == profile@,
            forall|i: int| 0 <= i < index ==> profile_character(#[trigger] chars@[i]),
        decreases chars@.len() - index,
    {
        if !is_profile_character(chars[index]) {
            return false;
        }
        index += 1;
    }
    true
}

/// The directory of a profile's snapshots, below the directory of all.
pub fn profile_directory(profile: &str) -> (directory: Result<String, String>)
    ensures
        match directory {
            Ok(directory) => profile@.len() > 0 && profile_characters(profile@) && directory@
                == "profiles/"@ + profile@,
            Err(error) => !(profile@.len() > 0 && profile_characters(profile@)) && error@
                == "snapshot profile contains invalid path characters"@,
        },
{
    if profile.unicode_len() == 0 || !has_profile_characters(profile) {
        return Err("snapshot profile contains invalid path characters".to_owned());
    }
    let mut directory = "profiles/".to_owned();
    directory.append(profile);
    Ok(directory)
}

/// A profile is one component of a path: letters, digits, dots, underscores and
/// hyphens.
pub proof fn law_profiles_are_plain_names(profile: Seq<char>, index: int)
    requires
        profile_characters(profile),
        0 <= index < profile.len(),
    ensures
        profile[index] != '/',
        profile[index] != '\\',
        profile[index] != ':',
        profile[index] != ' ',
        33 <= profile[index] as int <= 126,
{
}

/// Every letter, digit, dot, underscore and hyphen may stand in a profile.
pub proof fn law_plain_names_are_profiles(profile: Seq<char>)
    requires
        forall|i: int|
            0 <= i < profile.len() ==> {
                let code = (#[trigger] profile[i]) as int;
                48 <= code <= 57 || 65 <= code <= 90 || 97 <= code <= 122 || code == 45 || code
                    == 46 || code == 95
            },
    ensures
        profile_characters(profile),
{
    assert forall|i: int| 0 <= i < profile.len() implies profile_character(
        #[trigger] profile[i],
    ) by {
    }
}

} // verus!
