//! A record as a file: a header, a checksum and the stored hierarchy.

use super::format::{get_bytes, get_number, parse_bytes, parse_number, Read, Stored};
use super::{Corruption, PersistedCoreLayout, SnapshotRecord, StoredHierarchy, StoredRecord};
use crate::bytes::{
    eight, four, le_bytes, lemma_byte_ranges, lemma_eight, lemma_four, lemma_le_bytes_len,
    lemma_parse_le, lemma_parse_slice, put_le, put_slice, same_bytes, Decoder,
};
use crate::crypto::{digest_sha256, sha256};
use vstd::prelude::*;
use vstd::string::*;

verus! {

/// The revision of the file format.
pub const SCHEMA_VERSION: u32 = 1;

/// The longest file.
pub const MAX_SNAPSHOT_BYTES: usize = 16777216;

/// The bytes that every file starts with.
pub open spec fn magic() -> Seq<u8> {
    seq![0x41u8, 0x54, 0x53, 0x54, 0x41, 0x54, 0x45, 0x31]
}

/// Why a record has no file.
#[derive(Clone, Copy, Debug, PartialEq, Eq, Structural)]
pub enum EncodeError {
    Refused(Corruption),
    PayloadTooLarge,
    TooLarge,
}

impl EncodeError {
    pub open spec fn spec_message(self) -> Seq<char> {
        match self {
            EncodeError::Refused(corruption) => corruption.spec_message(),
            EncodeError::PayloadTooLarge => "snapshot payload exceeds the format limit"@,
            EncodeError::TooLarge => "snapshot exceeds 16777216 bytes"@,
        }
    }

    pub fn message(self) -> (message: String)
        ensures
            message@ == self.spec_message(),
    {
        match self {
            EncodeError::Refused(corruption) => corruption.message(),
            EncodeError::PayloadTooLarge => "snapshot payload exceeds the format limit".to_owned(),
            EncodeError::TooLarge => "snapshot exceeds 16777216 bytes".to_owned(),
        }
    }
}

/// Why a file holds no record.
#[derive(Clone, Copy, Debug, PartialEq, Eq, Structural)]
pub enum DecodeError {
    IncompatibleNewer { schema_version: u32 },
    Corrupt(Corruption),
}

/// The file of a generation of a hierarchy stored as `payload`.
pub open spec fn file_of(generation: u64, payload: Seq<u8>) -> Seq<u8> {
    magic() + (le_bytes(SCHEMA_VERSION as nat, 4) + (le_bytes(generation as nat, 8) + (le_bytes(
        payload.len(),
        4,
    ) + (sha256(payload) + payload))))
}

/// The file of `record`, or why it has none.
pub open spec fn snapshot_file(record: StoredRecord) -> Result<Seq<u8>, EncodeError> {
    let payload = PersistedCoreLayout::form(record.layout);
    match PersistedCoreLayout::refusal(record.layout) {
        Some(corruption) => Err(EncodeError::Refused(corruption)),
        None => if payload.len() > u32::MAX {
            Err(EncodeError::PayloadTooLarge)
        } else if file_of(record.generation, payload).len() > MAX_SNAPSHOT_BYTES {
            Err(EncodeError::TooLarge)
        } else {
            Ok(file_of(record.generation, payload))
        },
    }
}

pub open spec fn corrupt<T>(corruption: Corruption) -> Result<T, DecodeError> {
    Err(DecodeError::Corrupt(corruption))
}

/// Generations are counted from 1, and the last is not used.
pub open spec fn valid_generation(generation: nat) -> bool {
    0 < generation < u64::MAX
}

/// The hierarchy that `payload` stores.
pub open spec fn parse_payload(payload: Seq<u8>) -> Result<StoredHierarchy, DecodeError> {
    match PersistedCoreLayout::parse(payload) {
        Err(corruption) => corrupt(corruption),
        Ok((layout, rest)) => if rest.len() > 0 {
            corrupt(Corruption::TrailingBytes)
        } else {
            Ok(layout)
        },
    }
}

/// The checksum and the payload that follow the length of the payload.
pub open spec fn parse_checked(input: Seq<u8>, length: nat) -> Result<Seq<u8>, DecodeError> {
    match parse_bytes(input, 32) {
        Err(corruption) => corrupt(corruption),
        Ok((checksum, rest)) => match parse_bytes(rest, length) {
            Err(corruption) => corrupt(corruption),
            Ok((payload, rest)) => if rest.len() > 0 {
                corrupt(Corruption::TrailingBytes)
            } else if checksum != sha256(payload) {
                corrupt(Corruption::Checksum)
            } else {
                Ok(payload)
            },
        },
    }
}

/// The generation and the payload that follow the schema.
pub open spec fn parse_current(input: Seq<u8>) -> Result<(u64, Seq<u8>), DecodeError> {
    match parse_number(input, 8) {
        Err(corruption) => corrupt(corruption),
        Ok((generation, rest)) => if !valid_generation(generation) {
            corrupt(Corruption::Generation)
        } else {
            match parse_number(rest, 4) {
                Err(corruption) => corrupt(corruption),
                Ok((length, rest)) => match parse_checked(rest, length) {
                    Err(error) => Err(error),
                    Ok(payload) => Ok((generation as u64, payload)),
                },
            }
        },
    }
}

/// The generation and the payload of a file.
pub open spec fn parse_file(bytes: Seq<u8>) -> Result<(u64, Seq<u8>), DecodeError> {
    if bytes.len() > MAX_SNAPSHOT_BYTES {
        corrupt(Corruption::Oversized)
    } else {
        match parse_bytes(bytes, 8) {
            Err(corruption) => corrupt(corruption),
            Ok((found, rest)) => if found != magic() {
                corrupt(Corruption::Magic)
            } else {
                match parse_number(rest, 4) {
                    Err(corruption) => corrupt(corruption),
                    Ok((schema, rest)) => if schema > SCHEMA_VERSION {
                        Err(DecodeError::IncompatibleNewer { schema_version: schema as u32 })
                    } else if schema != SCHEMA_VERSION {
                        corrupt(Corruption::OlderSchema(schema as u32))
                    } else {
                        parse_current(rest)
                    },
                }
            },
        }
    }
}

/// The record that a file holds, or why it holds none.
pub open spec fn parse_snapshot(bytes: Seq<u8>) -> Result<StoredRecord, DecodeError> {
    match parse_file(bytes) {
        Err(error) => Err(error),
        Ok((generation, payload)) => match parse_payload(payload) {
            Err(error) => Err(error),
            Ok(layout) => Ok(StoredRecord { generation, layout }),
        },
    }
}

proof fn lemma_file_parses(generation: u64, payload: Seq<u8>)
    requires
        valid_generation(generation as nat),
        payload.len() <= u32::MAX,
        file_of(generation, payload).len() <= MAX_SNAPSHOT_BYTES,
        sha256(payload).len() == 32,
    ensures
        parse_file(file_of(generation, payload)) == Result::<(u64, Seq<u8>), DecodeError>::Ok(
            (generation, payload),
        ),
{
    let after_length = sha256(payload) + payload;
    let after_generation = le_bytes(payload.len(), 4) + after_length;
    let after_schema = le_bytes(generation as nat, 8) + after_generation;
    let after_magic = le_bytes(SCHEMA_VERSION as nat, 4) + after_schema;
    lemma_byte_ranges();
    lemma_parse_slice(magic(), after_magic);
    lemma_parse_le(SCHEMA_VERSION as nat, 4, after_schema);
    lemma_parse_le(generation as nat, 8, after_generation);
    lemma_parse_le(payload.len(), 4, after_length);
    lemma_parse_slice(sha256(payload), payload);
    assert(payload + Seq::empty() =~= payload);
    lemma_parse_slice(payload, Seq::empty());
    assert(file_of(generation, payload) == magic() + after_magic);
}

/// Reading a file gives back the record that was written, whose digest has the
/// length of every digest.
pub proof fn law_snapshots_round_trip(record: StoredRecord)
    requires
        valid_generation(record.generation as nat),
        snapshot_file(record) is Ok,
        PersistedCoreLayout::readable(record.layout),
        sha256(PersistedCoreLayout::form(record.layout)).len() == 32,
    ensures
        parse_snapshot(snapshot_file(record)->Ok_0) == Result::<StoredRecord, DecodeError>::Ok(
            record,
        ),
{
    let payload = PersistedCoreLayout::form(record.layout);
    lemma_file_parses(record.generation, payload);
    PersistedCoreLayout::round_trip(record.layout, Seq::empty());
    assert(payload + Seq::empty() =~= payload);
}

/// A file whose payload is replaced by another of the same length and another
/// digest is rejected for its checksum.
pub proof fn law_altered_payloads_are_rejected(
    generation: u64,
    payload: Seq<u8>,
    altered: Seq<u8>,
)
    requires
        valid_generation(generation as nat),
        payload.len() <= u32::MAX,
        file_of(generation, payload).len() <= MAX_SNAPSHOT_BYTES,
        sha256(payload).len() == 32,
        altered.len() == payload.len(),
        sha256(altered) != sha256(payload),
    ensures
        ({
            let file = file_of(generation, payload);
            parse_snapshot(file.take(file.len() - payload.len()) + altered) == Result::<
                StoredRecord,
                DecodeError,
            >::Err(DecodeError::Corrupt(Corruption::Checksum))
        }),
{
    let file = file_of(generation, payload);
    let after_length = sha256(payload) + altered;
    let after_generation = le_bytes(payload.len(), 4) + after_length;
    let after_schema = le_bytes(generation as nat, 8) + after_generation;
    let after_magic = le_bytes(SCHEMA_VERSION as nat, 4) + after_schema;
    let forged = file.take(file.len() - payload.len()) + altered;
    lemma_byte_ranges();
    lemma_le_bytes_len(SCHEMA_VERSION as nat, 4);
    lemma_le_bytes_len(generation as nat, 8);
    lemma_le_bytes_len(payload.len(), 4);
    assert(forged =~= magic() + after_magic);
    lemma_parse_slice(magic(), after_magic);
    lemma_parse_le(SCHEMA_VERSION as nat, 4, after_schema);
    lemma_parse_le(generation as nat, 8, after_generation);
    lemma_parse_le(payload.len(), 4, after_length);
    lemma_parse_slice(sha256(payload), altered);
    assert(altered + Seq::empty() =~= altered);
    lemma_parse_slice(altered, Seq::empty());
}

fn put_magic(output: &mut Vec<u8>)
    ensures
        final(output)@ == old(output)@ + magic(),
{
    let magic: [u8; 8] = [0x41, 0x54, 0x53, 0x54, 0x41, 0x54, 0x45, 0x31];
    put_slice(output, magic.as_slice());
    proof {
        assert(magic@ =~= self::magic());
    }
}

fn is_magic(bytes: &[u8]) -> (found: bool)
    ensures
        found == (bytes@ == magic()),
{
    let magic: [u8; 8] = [0x41, 0x54, 0x53, 0x54, 0x41, 0x54, 0x45, 0x31];
    proof {
        assert(magic@ =~= self::magic());
    }
    same_bytes(bytes, magic.as_slice())
}

/// The file of `record`.
pub fn encode_snapshot(record: &SnapshotRecord) -> (file: Result<Vec<u8>, EncodeError>)
    ensures
        match snapshot_file(record@) {
            Ok(bytes) => file is Ok && file->Ok_0@ == bytes,
            Err(error) => file is Err && file->Err_0 == error,
        },
        file is Ok ==> sha256(PersistedCoreLayout::form(record@.layout)).len() == 32,
{
    let mut payload: Vec<u8> = Vec::new();
    if let Err(corruption) = record.layout.put(&mut payload) {
        return Err(EncodeError::Refused(corruption));
    }
    proof {
        assert(payload@ =~= PersistedCoreLayout::form(record@.layout));
    }
    if payload.len() > 0xffff_ffff {
        return Err(EncodeError::PayloadTooLarge);
    }
    let checksum = digest_sha256(payload.as_slice());
    let mut output: Vec<u8> = Vec::new();
    put_magic(&mut output);
    put_le(&mut output, SCHEMA_VERSION as u64, 4);
    put_le(&mut output, record.generation, 8);
    put_le(&mut output, payload.len() as u64, 4);
    put_slice(&mut output, checksum.as_slice());
    put_slice(&mut output, payload.as_slice());
    proof {
        assert(output@ =~= file_of(record@.generation, payload@));
    }
    if output.len() > MAX_SNAPSHOT_BYTES {
        return Err(EncodeError::TooLarge);
    }
    Ok(output)
}

fn decode_checked<'a>(decoder: &mut Decoder<'a>, length: usize) -> (result: Result<
    &'a [u8],
    DecodeError,
>)
    requires
        length <= u32::MAX,
    ensures
        match parse_checked(old(decoder)@, length as nat) {
            Ok(payload) => result is Ok && result->Ok_0@ == payload,
            Err(error) => result is Err && result->Err_0 == error,
        },
{
    let checksum = match get_bytes(decoder, 32) {
        Err(corruption) => return Err(DecodeError::Corrupt(corruption)),
        Ok(checksum) => checksum,
    };
    let payload = match get_bytes(decoder, length) {
        Err(corruption) => return Err(DecodeError::Corrupt(corruption)),
        Ok(payload) => payload,
    };
    if !decoder.is_finished() {
        return Err(DecodeError::Corrupt(Corruption::TrailingBytes));
    }
    let digest = digest_sha256(payload);
    if !same_bytes(digest.as_slice(), checksum) {
        return Err(DecodeError::Corrupt(Corruption::Checksum));
    }
    Ok(payload)
}

fn decode_file<'a>(bytes: &'a [u8]) -> (result: Result<(u64, &'a [u8]), DecodeError>)
    ensures
        match parse_file(bytes@) {
            Ok((generation, payload)) => result is Ok && result->Ok_0.0 == generation
                && result->Ok_0.1@ == payload,
            Err(error) => result is Err && result->Err_0 == error,
        },
{
    if bytes.len() > MAX_SNAPSHOT_BYTES {
        return Err(DecodeError::Corrupt(Corruption::Oversized));
    }
    proof {
        lemma_byte_ranges();
    }
    let mut decoder = Decoder::new(bytes);
    let found = match get_bytes(&mut decoder, 8) {
        Err(corruption) => return Err(DecodeError::Corrupt(corruption)),
        Ok(found) => found,
    };
    if !is_magic(found) {
        return Err(DecodeError::Corrupt(Corruption::Magic));
    }
    let schema = match get_number(&mut decoder, 4) {
        Err(corruption) => return Err(DecodeError::Corrupt(corruption)),
        Ok(schema) => schema as u32,
    };
    if schema > SCHEMA_VERSION {
        return Err(DecodeError::IncompatibleNewer { schema_version: schema });
    }
    if schema != SCHEMA_VERSION {
        return Err(DecodeError::Corrupt(Corruption::OlderSchema(schema)));
    }
    let generation = match get_number(&mut decoder, 8) {
        Err(corruption) => return Err(DecodeError::Corrupt(corruption)),
        Ok(generation) => generation,
    };
    if generation == 0 || generation == u64::MAX {
        return Err(DecodeError::Corrupt(Corruption::Generation));
    }
    let length = match get_number(&mut decoder, 4) {
        Err(corruption) => return Err(DecodeError::Corrupt(corruption)),
        Ok(length) => length as usize,
    };
    match decode_checked(&mut decoder, length) {
        Err(error) => Err(error),
        Ok(payload) => Ok((generation, payload)),
    }
}

/// The record that a file holds.
pub fn decode_snapshot(bytes: &[u8]) -> (record: Result<SnapshotRecord, DecodeError>)
    ensures
        match parse_snapshot(bytes@) {
            Ok(value) => record is Ok && record->Ok_0@ == value,
            Err(error) => record is Err && record->Err_0 == error,
        },
{
    let (generation, payload) = match decode_file(bytes) {
        Err(error) => return Err(error),
        Ok(parts) => parts,
    };
    let mut decoder = Decoder::new(payload);
    match PersistedCoreLayout::get(&mut decoder) {
        Err(corruption) => Err(DecodeError::Corrupt(corruption)),
        Ok(layout) => if decoder.is_finished() {
            Ok(SnapshotRecord { generation, layout })
        } else {
            Err(DecodeError::Corrupt(Corruption::TrailingBytes))
        },
    }
}

/// A file is read only as far as it makes sense: one that begins otherwise, is of
/// another schema or has no generation is refused for that, and a newer schema is
/// told of.
pub proof fn law_other_files_are_refused(
    schema: u32,
    generation: u64,
    letters: Seq<u8>,
    rest: Seq<u8>,
)
    requires
        letters.len() == 8,
        letters.len() + rest.len() + 12 <= MAX_SNAPSHOT_BYTES,
    ensures
        ({
            let numbered = four(schema as nat) + (eight(generation) + rest);
            &&& letters != seq![0x41u8, 0x54, 0x53, 0x54, 0x41, 0x54, 0x45, 0x31]
                ==> parse_snapshot(letters + numbered) == corrupt::<StoredRecord>(
                Corruption::Magic,
            )
            &&& letters == seq![0x41u8, 0x54, 0x53, 0x54, 0x41, 0x54, 0x45, 0x31] ==> {
                &&& schema > 1 ==> parse_snapshot(letters + numbered) == Result::<
                    StoredRecord,
                    DecodeError,
                >::Err(DecodeError::IncompatibleNewer { schema_version: schema })
                &&& schema == 0 ==> parse_snapshot(letters + numbered) == corrupt::<StoredRecord>(
                    Corruption::OlderSchema(0),
                )
                &&& schema == 1 && (generation == 0 || generation == u64::MAX) ==> parse_snapshot(
                    letters + numbered,
                ) == corrupt::<StoredRecord>(Corruption::Generation)
            }
        }),
{
    let after_schema = eight(generation) + rest;
    let numbered = four(schema as nat) + after_schema;
    lemma_byte_ranges();
    lemma_four(schema as nat);
    lemma_eight(generation);
    lemma_le_bytes_len(schema as nat, 4);
    lemma_le_bytes_len(generation as nat, 8);
    lemma_parse_slice(letters, numbered);
    lemma_parse_le(schema as nat, 4, after_schema);
    lemma_parse_le(generation as nat, 8, rest);
}

} // verus!
