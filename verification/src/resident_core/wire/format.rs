//! What it takes to have a binary form, and the forms of numbers, texts,
//! pairs and lists.

use crate::bytes::{
    copied, le_bytes, lemma_byte_ranges, lemma_parse_le, lemma_parse_slice, parse_le, parse_slice,
    put_le, put_slice, Decoder,
};
use crate::core_model::{CoreModelError, DirectoryPath};
use crate::sequences::views;
use crate::terminal::UpdateError;
use crate::text::utf8_text;
use vstd::prelude::*;
use vstd::string::*;
use vstd::utf8::{
    decode_utf8, encode_utf8, encode_utf8_decode_utf8, encode_utf8_valid_utf8, valid_utf8,
};

verus! {

/// The most items that a list may have.
pub const MAX_COLLECTION_ITEMS: usize = 16384;

/// What a byte that selects one of several forms selects.
#[derive(Clone, Copy, Debug, PartialEq, Eq, Structural)]
pub enum Tag {
    Request,
    Response,
    SnapshotRevision,
    SnapshotPresence,
    ControlLeaseDenial,
    SemanticEvent,
    ControlLeaseController,
    PaneLayout,
    RemovedRestoreDisposition,
    CoreCommand,
    CreatedResource,
    CoreModelError,
    SplitAxis,
    SplitPlacement,
    ResourceKind,
    TerminalLifecycle,
    BaseRevisionPresence,
    CursorPresence,
    ExplicitBackground,
}

/// Why a message has no binary form, or bytes are not a message.
#[derive(Clone, Copy, Debug, PartialEq, Eq, Structural)]
pub enum WireError {
    FrameTooLarge,
    MissingLengthPrefix,
    LengthMismatch,
    UnexpectedEnd,
    TrailingBytes,
    NotUtf8,
    FieldTooLarge,
    PathTooLong,
    IndexTooLarge,
    TooManyItems,
    TooManySpaces,
    TooManyTabs,
    TooManyTerminalSessions,
    TooManyControlLeases,
    LayoutTooDeep,
    ZeroId,
    InvalidTag(Tag),
    InvalidSplitRatio(u16),
    TooManyDirtyRows,
    DirtyRowsExceedGrid,
    TooManyCells,
    CellsExceedCapacity,
    CellOutsideGrid,
    CursorOutsideGrid,
    InvalidUpdate(UpdateError),
}

impl Tag {
    pub open spec fn spec_message(self) -> Seq<char> {
        match self {
            Tag::Request => "unknown Resident Core request kind"@,
            Tag::Response => "unknown Resident Core response kind"@,
            Tag::SnapshotRevision => "invalid Snapshot revision flag"@,
            Tag::SnapshotPresence => "invalid Snapshot presence flag"@,
            Tag::ControlLeaseDenial => "invalid Control Lease denial reason"@,
            Tag::SemanticEvent => "invalid semantic event kind"@,
            Tag::ControlLeaseController => "invalid Control Lease controller flag"@,
            Tag::PaneLayout => "invalid Pane layout kind"@,
            Tag::RemovedRestoreDisposition => "invalid removed Restore Disposition"@,
            Tag::CoreCommand => "invalid Core command kind"@,
            Tag::CreatedResource => "invalid created resource kind"@,
            Tag::CoreModelError => "invalid Core model error kind"@,
            Tag::SplitAxis => "invalid split axis"@,
            Tag::SplitPlacement => "invalid split placement"@,
            Tag::ResourceKind => "invalid Core resource kind"@,
            Tag::TerminalLifecycle => "invalid Terminal Session lifecycle"@,
            Tag::BaseRevisionPresence => "invalid base revision presence flag"@,
            Tag::CursorPresence => "invalid cursor presence flag"@,
            Tag::ExplicitBackground => "invalid explicit-background flag"@,
        }
    }

    pub fn message(self) -> (message: &'static str)
        ensures
            message@ == self.spec_message(),
    {
        match self {
            Tag::Request => "unknown Resident Core request kind",
            Tag::Response => "unknown Resident Core response kind",
            Tag::SnapshotRevision => "invalid Snapshot revision flag",
            Tag::SnapshotPresence => "invalid Snapshot presence flag",
            Tag::ControlLeaseDenial => "invalid Control Lease denial reason",
            Tag::SemanticEvent => "invalid semantic event kind",
            Tag::ControlLeaseController => "invalid Control Lease controller flag",
            Tag::PaneLayout => "invalid Pane layout kind",
            Tag::RemovedRestoreDisposition => "invalid removed Restore Disposition",
            Tag::CoreCommand => "invalid Core command kind",
            Tag::CreatedResource => "invalid created resource kind",
            Tag::CoreModelError => "invalid Core model error kind",
            Tag::SplitAxis => "invalid split axis",
            Tag::SplitPlacement => "invalid split placement",
            Tag::ResourceKind => "invalid Core resource kind",
            Tag::TerminalLifecycle => "invalid Terminal Session lifecycle",
            Tag::BaseRevisionPresence => "invalid base revision presence flag",
            Tag::CursorPresence => "invalid cursor presence flag",
            Tag::ExplicitBackground => "invalid explicit-background flag",
        }
    }
}

impl WireError {
    pub open spec fn spec_message(self) -> Seq<char> {
        match self {
            WireError::FrameTooLarge => "protocol frame exceeds 16 MiB"@,
            WireError::MissingLengthPrefix => "protocol frame is missing its length prefix"@,
            WireError::LengthMismatch => "protocol frame length does not match its payload"@,
            WireError::UnexpectedEnd => "protocol frame ended inside a field"@,
            WireError::TrailingBytes => "protocol frame contains trailing bytes"@,
            WireError::NotUtf8 => "protocol string is not UTF-8"@,
            WireError::FieldTooLarge => "byte field is too large"@,
            WireError::PathTooLong => "path is too long"@,
            WireError::IndexTooLarge => "Core index is too large"@,
            WireError::TooManyItems => "protocol collection exceeds item limit"@,
            WireError::TooManySpaces => "too many Spaces"@,
            WireError::TooManyTabs => "too many Tabs"@,
            WireError::TooManyTerminalSessions => "too many Terminal Sessions"@,
            WireError::TooManyControlLeases => "too many Control Leases"@,
            WireError::LayoutTooDeep => "Pane layout exceeds maximum depth"@,
            WireError::ZeroId => "Core resource ID cannot be zero"@,
            WireError::InvalidTag(tag) => tag.spec_message(),
            WireError::InvalidSplitRatio(parts) => {
                CoreModelError::InvalidSplitRatio(parts).spec_message()
            },
            WireError::TooManyDirtyRows => "snapshot contains too many dirty rows"@,
            WireError::DirtyRowsExceedGrid => "snapshot dirty row count exceeds grid height"@,
            WireError::TooManyCells => "snapshot contains too many cells"@,
            WireError::CellsExceedCapacity => "snapshot cell count exceeds capacity"@,
            WireError::CellOutsideGrid => "snapshot cell is outside the terminal grid"@,
            WireError::CursorOutsideGrid => "snapshot cursor is outside the terminal grid"@,
            WireError::InvalidUpdate(error) => error.spec_message(),
        }
    }

    pub fn message(self) -> (message: String)
        ensures
            message@ == self.spec_message(),
    {
        match self {
            WireError::FrameTooLarge => "protocol frame exceeds 16 MiB".to_owned(),
            WireError::MissingLengthPrefix => {
                "protocol frame is missing its length prefix".to_owned()
            },
            WireError::LengthMismatch => {
                "protocol frame length does not match its payload".to_owned()
            },
            WireError::UnexpectedEnd => "protocol frame ended inside a field".to_owned(),
            WireError::TrailingBytes => "protocol frame contains trailing bytes".to_owned(),
            WireError::NotUtf8 => "protocol string is not UTF-8".to_owned(),
            WireError::FieldTooLarge => "byte field is too large".to_owned(),
            WireError::PathTooLong => "path is too long".to_owned(),
            WireError::IndexTooLarge => "Core index is too large".to_owned(),
            WireError::TooManyItems => "protocol collection exceeds item limit".to_owned(),
            WireError::TooManySpaces => "too many Spaces".to_owned(),
            WireError::TooManyTabs => "too many Tabs".to_owned(),
            WireError::TooManyTerminalSessions => "too many Terminal Sessions".to_owned(),
            WireError::TooManyControlLeases => "too many Control Leases".to_owned(),
            WireError::LayoutTooDeep => "Pane layout exceeds maximum depth".to_owned(),
            WireError::ZeroId => "Core resource ID cannot be zero".to_owned(),
            WireError::InvalidTag(tag) => tag.message().to_owned(),
            WireError::InvalidSplitRatio(parts) => {
                CoreModelError::InvalidSplitRatio(parts).message()
            },
            WireError::TooManyDirtyRows => "snapshot contains too many dirty rows".to_owned(),
            WireError::DirtyRowsExceedGrid => {
                "snapshot dirty row count exceeds grid height".to_owned()
            },
            WireError::TooManyCells => "snapshot contains too many cells".to_owned(),
            WireError::CellsExceedCapacity => "snapshot cell count exceeds capacity".to_owned(),
            WireError::CellOutsideGrid => "snapshot cell is outside the terminal grid".to_owned(),
            WireError::CursorOutsideGrid => {
                "snapshot cursor is outside the terminal grid".to_owned()
            },
            WireError::InvalidUpdate(error) => error.message(),
        }
    }
}

/// A value read from the front of some bytes, and the bytes after it.
pub type Parsed<T> = Result<(T, Seq<u8>), WireError>;

/// What was read, as `f` sees it.
pub open spec fn mapped<A, B>(parsed: Parsed<A>, f: spec_fn(A) -> B) -> Parsed<B> {
    match parsed {
        Ok((value, rest)) => Ok((f(value), rest)),
        Err(error) => Err(error),
    }
}

/// A value with a binary form.
pub trait Wire: View + Sized {
    /// The form of `value`.
    spec fn form(value: Self::V) -> Seq<u8>;

    /// Why `value` has no form.
    spec fn refusal(value: Self::V) -> Option<WireError>;

    /// The value at the front of `input`.
    spec fn parse(input: Seq<u8>) -> Parsed<Self::V>;

    /// Whether the form of `value` can be read.
    spec fn readable(value: Self::V) -> bool;

    /// What reading the form of `value` gives.
    spec fn received(value: Self::V) -> Self::V;

    /// Reading what was written gives what `received` says.
    proof fn round_trip(value: Self::V, rest: Seq<u8>)
        requires
            Self::refusal(value) is None,
            Self::readable(value),
        ensures
            Self::parse(Self::form(value) + rest) == Parsed::<Self::V>::Ok(
                (Self::received(value), rest),
            ),
    ;

    /// Appends the form of this value.
    fn put(&self, output: &mut Vec<u8>) -> (result: Result<(), WireError>)
        ensures
            match Self::refusal(self@) {
                None => result is Ok && final(output)@ == old(output)@ + Self::form(self@),
                Some(error) => result == Err::<(), WireError>(error),
            },
    ;

    /// Reads a value.
    fn get(decoder: &mut Decoder<'_>) -> (result: Result<Self, WireError>)
        ensures
            match Self::parse(old(decoder)@) {
                Ok((value, rest)) => result is Ok && result->Ok_0@ == value && final(decoder)@
                    == rest,
                Err(error) => result is Err && result->Err_0 == error,
            },
    ;
}

/// The number in the first `width` bytes.
pub open spec fn parse_number(input: Seq<u8>, width: nat) -> Parsed<nat> {
    match parse_le(input, width) {
        Some((number, rest)) => Ok((number, rest)),
        None => Err(WireError::UnexpectedEnd),
    }
}

impl Wire for u8 {
    open spec fn form(value: u8) -> Seq<u8> {
        seq![value]
    }

    open spec fn refusal(value: u8) -> Option<WireError> {
        None
    }

    open spec fn parse(input: Seq<u8>) -> Parsed<u8> {
        if input.len() > 0 {
            Ok((input[0], input.skip(1)))
        } else {
            Err(WireError::UnexpectedEnd)
        }
    }

    open spec fn readable(value: u8) -> bool {
        true
    }

    open spec fn received(value: u8) -> u8 {
        value
    }

    proof fn round_trip(value: u8, rest: Seq<u8>) {
        assert((seq![value] + rest).skip(1) =~= rest);
    }

    fn put(&self, output: &mut Vec<u8>) -> (result: Result<(), WireError>) {
        output.push(*self);
        proof {
            assert(output@ =~= old(output)@ + seq![*self]);
        }
        Ok(())
    }

    fn get(decoder: &mut Decoder<'_>) -> (result: Result<u8, WireError>) {
        match decoder.slice(1) {
            Some(bytes) => Ok(bytes[0]),
            None => Err(WireError::UnexpectedEnd),
        }
    }
}

impl Wire for u16 {
    open spec fn form(value: u16) -> Seq<u8> {
        le_bytes(value as nat, 2)
    }

    open spec fn refusal(value: u16) -> Option<WireError> {
        None
    }

    open spec fn parse(input: Seq<u8>) -> Parsed<u16> {
        mapped(parse_number(input, 2), |number: nat| number as u16)
    }

    open spec fn readable(value: u16) -> bool {
        true
    }

    open spec fn received(value: u16) -> u16 {
        value
    }

    proof fn round_trip(value: u16, rest: Seq<u8>) {
        lemma_byte_ranges();
        lemma_parse_le(value as nat, 2, rest);
    }

    fn put(&self, output: &mut Vec<u8>) -> (result: Result<(), WireError>) {
        put_le(output, *self as u64, 2);
        Ok(())
    }

    fn get(decoder: &mut Decoder<'_>) -> (result: Result<u16, WireError>) {
        proof {
            lemma_byte_ranges();
        }
        match decoder.uint(2) {
            Some(number) => Ok(number as u16),
            None => Err(WireError::UnexpectedEnd),
        }
    }
}

impl Wire for u32 {
    open spec fn form(value: u32) -> Seq<u8> {
        le_bytes(value as nat, 4)
    }

    open spec fn refusal(value: u32) -> Option<WireError> {
        None
    }

    open spec fn parse(input: Seq<u8>) -> Parsed<u32> {
        mapped(parse_number(input, 4), |number: nat| number as u32)
    }

    open spec fn readable(value: u32) -> bool {
        true
    }

    open spec fn received(value: u32) -> u32 {
        value
    }

    proof fn round_trip(value: u32, rest: Seq<u8>) {
        lemma_byte_ranges();
        lemma_parse_le(value as nat, 4, rest);
    }

    fn put(&self, output: &mut Vec<u8>) -> (result: Result<(), WireError>) {
        put_le(output, *self as u64, 4);
        Ok(())
    }

    fn get(decoder: &mut Decoder<'_>) -> (result: Result<u32, WireError>) {
        proof {
            lemma_byte_ranges();
        }
        match decoder.uint(4) {
            Some(number) => Ok(number as u32),
            None => Err(WireError::UnexpectedEnd),
        }
    }
}

impl Wire for u64 {
    open spec fn form(value: u64) -> Seq<u8> {
        le_bytes(value as nat, 8)
    }

    open spec fn refusal(value: u64) -> Option<WireError> {
        None
    }

    open spec fn parse(input: Seq<u8>) -> Parsed<u64> {
        mapped(parse_number(input, 8), |number: nat| number as u64)
    }

    open spec fn readable(value: u64) -> bool {
        true
    }

    open spec fn received(value: u64) -> u64 {
        value
    }

    proof fn round_trip(value: u64, rest: Seq<u8>) {
        lemma_byte_ranges();
        lemma_parse_le(value as nat, 8, rest);
    }

    fn put(&self, output: &mut Vec<u8>) -> (result: Result<(), WireError>) {
        put_le(output, *self, 8);
        Ok(())
    }

    fn get(decoder: &mut Decoder<'_>) -> (result: Result<u64, WireError>) {
        match decoder.uint(8) {
            Some(number) => Ok(number),
            None => Err(WireError::UnexpectedEnd),
        }
    }
}

/// A position, written in four bytes.
impl Wire for usize {
    open spec fn form(value: usize) -> Seq<u8> {
        le_bytes(value as nat, 4)
    }

    open spec fn refusal(value: usize) -> Option<WireError> {
        if value > u32::MAX {
            Some(WireError::IndexTooLarge)
        } else {
            None
        }
    }

    open spec fn parse(input: Seq<u8>) -> Parsed<usize> {
        mapped(parse_number(input, 4), |number: nat| number as usize)
    }

    open spec fn readable(value: usize) -> bool {
        true
    }

    open spec fn received(value: usize) -> usize {
        value
    }

    proof fn round_trip(value: usize, rest: Seq<u8>) {
        lemma_byte_ranges();
        lemma_parse_le(value as nat, 4, rest);
    }

    fn put(&self, output: &mut Vec<u8>) -> (result: Result<(), WireError>) {
        if *self > 0xffff_ffff {
            return Err(WireError::IndexTooLarge);
        }
        put_le(output, *self as u64, 4);
        Ok(())
    }

    fn get(decoder: &mut Decoder<'_>) -> (result: Result<usize, WireError>) {
        proof {
            lemma_byte_ranges();
        }
        match decoder.uint(4) {
            Some(number) => Ok(number as usize),
            None => Err(WireError::UnexpectedEnd),
        }
    }
}

/// The identity of a resource, which is never zero.
#[derive(Clone, Copy, Debug, PartialEq, Eq, Structural)]
pub struct Id(pub u64);

impl View for Id {
    type V = Id;

    open spec fn view(&self) -> Id {
        *self
    }
}

impl Wire for Id {
    open spec fn form(value: Id) -> Seq<u8> {
        u64::form(value.0)
    }

    open spec fn refusal(value: Id) -> Option<WireError> {
        None
    }

    open spec fn parse(input: Seq<u8>) -> Parsed<Id> {
        match u64::parse(input) {
            Ok((id, rest)) => if id == 0 {
                Err(WireError::ZeroId)
            } else {
                Ok((Id(id), rest))
            },
            Err(error) => Err(error),
        }
    }

    open spec fn readable(value: Id) -> bool {
        value.0 != 0
    }

    open spec fn received(value: Id) -> Id {
        value
    }

    proof fn round_trip(value: Id, rest: Seq<u8>) {
        u64::round_trip(value.0, rest);
    }

    fn put(&self, output: &mut Vec<u8>) -> (result: Result<(), WireError>) {
        self.0.put(output)
    }

    fn get(decoder: &mut Decoder<'_>) -> (result: Result<Id, WireError>) {
        match u64::get(decoder) {
            Ok(id) => if id == 0 {
                Err(WireError::ZeroId)
            } else {
                Ok(Id(id))
            },
            Err(error) => Err(error),
        }
    }
}

/// Bytes behind their number.
impl Wire for Vec<u8> {
    open spec fn form(value: Seq<u8>) -> Seq<u8> {
        le_bytes(value.len(), 4) + value
    }

    open spec fn refusal(value: Seq<u8>) -> Option<WireError> {
        if value.len() > u32::MAX {
            Some(WireError::FieldTooLarge)
        } else {
            None
        }
    }

    open spec fn parse(input: Seq<u8>) -> Parsed<Seq<u8>> {
        match parse_number(input, 4) {
            Ok((length, rest)) => match parse_slice(rest, length) {
                Some((bytes, rest)) => Ok((bytes, rest)),
                None => Err(WireError::UnexpectedEnd),
            },
            Err(error) => Err(error),
        }
    }

    open spec fn readable(value: Seq<u8>) -> bool {
        true
    }

    open spec fn received(value: Seq<u8>) -> Seq<u8> {
        value
    }

    proof fn round_trip(value: Seq<u8>, rest: Seq<u8>) {
        lemma_byte_ranges();
        lemma_parse_le(value.len(), 4, value + rest);
        lemma_parse_slice(value, rest);
        assert(Self::form(value) + rest =~= le_bytes(value.len(), 4) + (value + rest));
    }

    fn put(&self, output: &mut Vec<u8>) -> (result: Result<(), WireError>) {
        put_field(output, self.as_slice())
    }

    fn get(decoder: &mut Decoder<'_>) -> (result: Result<Vec<u8>, WireError>) {
        match get_field(decoder) {
            Ok(bytes) => Ok(copied(bytes)),
            Err(error) => Err(error),
        }
    }
}

/// Appends `bytes` behind their number.
pub fn put_field(output: &mut Vec<u8>, bytes: &[u8]) -> (result: Result<(), WireError>)
    ensures
        match Vec::<u8>::refusal(bytes@) {
            None => result is Ok && final(output)@ == old(output)@ + Vec::<u8>::form(bytes@),
            Some(error) => result == Err::<(), WireError>(error),
        },
{
    if bytes.len() > 0xffff_ffff {
        return Err(WireError::FieldTooLarge);
    }
    put_le(output, bytes.len() as u64, 4);
    put_slice(output, bytes);
    proof {
        assert(output@ =~= old(output)@ + Vec::<u8>::form(bytes@));
    }
    Ok(())
}

/// Reads bytes behind their number.
pub fn get_field<'a>(decoder: &mut Decoder<'a>) -> (result: Result<&'a [u8], WireError>)
    ensures
        match Vec::<u8>::parse(old(decoder)@) {
            Ok((bytes, rest)) => result is Ok && result->Ok_0@ == bytes && final(decoder)@ == rest,
            Err(error) => result is Err && result->Err_0 == error,
        },
{
    proof {
        lemma_byte_ranges();
    }
    match decoder.uint(4) {
        Some(length) => match decoder.slice(length as usize) {
            Some(bytes) => Ok(bytes),
            None => Err(WireError::UnexpectedEnd),
        },
        None => Err(WireError::UnexpectedEnd),
    }
}

/// Text in UTF-8 behind the number of its bytes.
impl Wire for String {
    open spec fn form(value: Seq<char>) -> Seq<u8> {
        Vec::<u8>::form(encode_utf8(value))
    }

    open spec fn refusal(value: Seq<char>) -> Option<WireError> {
        Vec::<u8>::refusal(encode_utf8(value))
    }

    open spec fn parse(input: Seq<u8>) -> Parsed<Seq<char>> {
        match Vec::<u8>::parse(input) {
            Ok((bytes, rest)) => if valid_utf8(bytes) {
                Ok((decode_utf8(bytes), rest))
            } else {
                Err(WireError::NotUtf8)
            },
            Err(error) => Err(error),
        }
    }

    open spec fn readable(value: Seq<char>) -> bool {
        true
    }

    open spec fn received(value: Seq<char>) -> Seq<char> {
        value
    }

    proof fn round_trip(value: Seq<char>, rest: Seq<u8>) {
        Vec::<u8>::round_trip(encode_utf8(value), rest);
        encode_utf8_valid_utf8(value);
        encode_utf8_decode_utf8(value);
    }

    fn put(&self, output: &mut Vec<u8>) -> (result: Result<(), WireError>) {
        put_field(output, self.as_str().as_bytes())
    }

    fn get(decoder: &mut Decoder<'_>) -> (result: Result<String, WireError>) {
        match get_field(decoder) {
            Ok(bytes) => match utf8_text(bytes) {
                Some(text) => Ok(text),
                None => Err(WireError::NotUtf8),
            },
            Err(error) => Err(error),
        }
    }
}

/// The bytes of a path behind their number.
impl Wire for DirectoryPath {
    open spec fn form(value: Seq<u8>) -> Seq<u8> {
        Vec::<u8>::form(value)
    }

    open spec fn refusal(value: Seq<u8>) -> Option<WireError> {
        Vec::<u8>::refusal(value)
    }

    open spec fn parse(input: Seq<u8>) -> Parsed<Seq<u8>> {
        Vec::<u8>::parse(input)
    }

    open spec fn readable(value: Seq<u8>) -> bool {
        true
    }

    open spec fn received(value: Seq<u8>) -> Seq<u8> {
        value
    }

    proof fn round_trip(value: Seq<u8>, rest: Seq<u8>) {
        Vec::<u8>::round_trip(value, rest);
    }

    fn put(&self, output: &mut Vec<u8>) -> (result: Result<(), WireError>) {
        self.bytes.put(output)
    }

    fn get(decoder: &mut Decoder<'_>) -> (result: Result<DirectoryPath, WireError>) {
        match Vec::<u8>::get(decoder) {
            Ok(bytes) => Ok(DirectoryPath { bytes }),
            Err(error) => Err(error),
        }
    }
}

/// One value after another.
impl<A: Wire, B: Wire> Wire for (A, B) {
    open spec fn form(value: (A::V, B::V)) -> Seq<u8> {
        A::form(value.0) + B::form(value.1)
    }

    open spec fn refusal(value: (A::V, B::V)) -> Option<WireError> {
        match A::refusal(value.0) {
            Some(error) => Some(error),
            None => B::refusal(value.1),
        }
    }

    open spec fn parse(input: Seq<u8>) -> Parsed<(A::V, B::V)> {
        match A::parse(input) {
            Ok((first, rest)) => match B::parse(rest) {
                Ok((second, rest)) => Ok(((first, second), rest)),
                Err(error) => Err(error),
            },
            Err(error) => Err(error),
        }
    }

    open spec fn readable(value: (A::V, B::V)) -> bool {
        A::readable(value.0) && B::readable(value.1)
    }

    open spec fn received(value: (A::V, B::V)) -> (A::V, B::V) {
        (A::received(value.0), B::received(value.1))
    }

    proof fn round_trip(value: (A::V, B::V), rest: Seq<u8>) {
        A::round_trip(value.0, B::form(value.1) + rest);
        B::round_trip(value.1, rest);
        assert(Self::form(value) + rest =~= A::form(value.0) + (B::form(value.1) + rest));
    }

    fn put(&self, output: &mut Vec<u8>) -> (result: Result<(), WireError>) {
        if let Err(error) = self.0.put(output) {
            return Err(error);
        }
        if let Err(error) = self.1.put(output) {
            return Err(error);
        }
        proof {
            assert(output@ =~= old(output)@ + Self::form(self@));
        }
        Ok(())
    }

    fn get(decoder: &mut Decoder<'_>) -> (result: Result<(A, B), WireError>) {
        match A::get(decoder) {
            Ok(first) => match B::get(decoder) {
                Ok(second) => Ok((first, second)),
                Err(error) => Err(error),
            },
            Err(error) => Err(error),
        }
    }
}

/// A value that comes in lists.
pub trait WireItem: Wire {
    /// What a list with too many of them is refused with.
    spec fn spec_too_many() -> WireError;

    fn too_many() -> (error: WireError)
        ensures
            error == Self::spec_too_many(),
    ;
}

/// The forms of `values`, one after another.
pub open spec fn items_form<T: Wire>(values: Seq<T::V>) -> Seq<u8>
    decreases values.len(),
{
    if values.len() == 0 {
        Seq::empty()
    } else {
        items_form::<T>(values.drop_last()) + T::form(values.last())
    }
}

/// The first objection to one of `values`.
pub open spec fn items_refusal<T: Wire>(values: Seq<T::V>) -> Option<WireError>
    decreases values.len(),
{
    if values.len() == 0 {
        None
    } else {
        match items_refusal::<T>(values.drop_last()) {
            Some(error) => Some(error),
            None => T::refusal(values.last()),
        }
    }
}

/// The `count` values at the front of `input`.
pub open spec fn parse_items<T: Wire>(input: Seq<u8>, count: nat) -> Parsed<Seq<T::V>>
    decreases count,
{
    if count == 0 {
        Ok((Seq::empty(), input))
    } else {
        match parse_items::<T>(input, (count - 1) as nat) {
            Ok((values, rest)) => match T::parse(rest) {
                Ok((value, rest)) => Ok((values.push(value), rest)),
                Err(error) => Err(error),
            },
            Err(error) => Err(error),
        }
    }
}

pub open spec fn items_readable<T: Wire>(values: Seq<T::V>) -> bool {
    forall|i: int| 0 <= i < values.len() ==> T::readable(#[trigger] values[i])
}

pub open spec fn items_received<T: Wire>(values: Seq<T::V>) -> Seq<T::V> {
    Seq::new(values.len(), |i: int| T::received(values[i]))
}

proof fn lemma_items_error<T: Wire>(input: Seq<u8>, failed: nat, count: nat)
    requires
        failed <= count,
        parse_items::<T>(input, failed) is Err,
    ensures
        parse_items::<T>(input, count) is Err,
        parse_items::<T>(input, count)->Err_0 == parse_items::<T>(input, failed)->Err_0,
    decreases count,
{
    if failed < count {
        lemma_items_error::<T>(input, failed, (count - 1) as nat);
    }
}

proof fn lemma_items_refusal<T: Wire>(values: Seq<T::V>, count: int)
    requires
        0 <= count <= values.len(),
        items_refusal::<T>(values.take(count)) is Some,
    ensures
        items_refusal::<T>(values) == items_refusal::<T>(values.take(count)),
    decreases values.len() - count,
{
    if count < values.len() {
        assert(values.take(count + 1).drop_last() =~= values.take(count));
        lemma_items_refusal::<T>(values, count + 1);
    } else {
        assert(values.take(count) =~= values);
    }
}

pub proof fn lemma_items_round_trip<T: Wire>(values: Seq<T::V>, rest: Seq<u8>)
    requires
        items_refusal::<T>(values) is None,
        items_readable::<T>(values),
    ensures
        parse_items::<T>(items_form::<T>(values) + rest, values.len()) == Parsed::<Seq<T::V>>::Ok(
            (items_received::<T>(values), rest),
        ),
    decreases values.len(),
{
    if values.len() == 0 {
        assert(items_form::<T>(values) + rest =~= rest);
        assert(items_received::<T>(values) =~= Seq::empty());
    } else {
        let initial = values.drop_last();
        let last = T::form(values.last());
        assert forall|i: int| 0 <= i < initial.len() implies T::readable(
            #[trigger] initial[i],
        ) by {
            assert(initial[i] == values[i]);
        }
        lemma_items_round_trip::<T>(initial, last + rest);
        T::round_trip(values.last(), rest);
        assert(items_form::<T>(values) + rest =~= items_form::<T>(initial) + (last + rest));
        assert(items_received::<T>(values) =~= items_received::<T>(initial).push(
            T::received(values.last()),
        ));
    }
}

/// Appends the forms of `items`.
pub fn put_items<T: Wire>(items: &Vec<T>, output: &mut Vec<u8>) -> (result: Result<(), WireError>)
    ensures
        match items_refusal::<T>(views(items@)) {
            None => result is Ok && final(output)@ == old(output)@ + items_form::<T>(
                views(items@),
            ),
            Some(error) => result == Err::<(), WireError>(error),
        },
{
    let ghost values = views(items@);
    let mut index: usize = 0;
    proof {
        assert(output@ =~= old(output)@ + items_form::<T>(values.take(0)));
    }
    while index < items.len()
        invariant
            index <= items@.len(),
            values == views(items@),
            items_refusal::<T>(values.take(index as int)) is None,
            output@ == old(output)@ + items_form::<T>(values.take(index as int)),
        decreases items@.len() - index,
    {
        proof {
            assert(values.take(index + 1).drop_last() =~= values.take(index as int));
            assert(values.take(index + 1).last() == items@[index as int]@);
        }
        if let Err(error) = items[index].put(output) {
            proof {
                lemma_items_refusal::<T>(values, index + 1);
            }
            return Err(error);
        }
        index += 1;
        proof {
            assert(output@ =~= old(output)@ + items_form::<T>(values.take(index as int)));
        }
    }
    proof {
        assert(values.take(index as int) =~= values);
    }
    Ok(())
}

/// Reads `count` items.
pub fn get_items<T: Wire>(decoder: &mut Decoder<'_>, count: usize) -> (result: Result<
    Vec<T>,
    WireError,
>)
    ensures
        match parse_items::<T>(old(decoder)@, count as nat) {
            Ok((values, rest)) => result is Ok && views(result->Ok_0@) == values && final(decoder)@
                == rest,
            Err(error) => result is Err && result->Err_0 == error,
        },
{
    let ghost input = decoder@;
    let mut items: Vec<T> = Vec::new();
    let mut index: usize = 0;
    proof {
        assert(views(items@) =~= Seq::empty());
    }
    while index < count
        invariant
            index <= count,
            input == old(decoder)@,
            parse_items::<T>(input, index as nat) == Parsed::<Seq<T::V>>::Ok(
                (views(items@), decoder@),
            ),
        decreases count - index,
    {
        let ghost before = items@;
        match T::get(decoder) {
            Ok(item) => {
                items.push(item);
                proof {
                    assert(views(items@) =~= views(before).push(item@));
                }
            },
            Err(error) => {
                proof {
                    lemma_items_error::<T>(input, (index + 1) as nat, count as nat);
                }
                return Err(error);
            },
        }
        index += 1;
    }
    Ok(items)
}

/// A list behind the number of its items.
pub struct Items<T>(pub Vec<T>);

impl<T: View> View for Items<T> {
    type V = Seq<T::V>;

    open spec fn view(&self) -> Seq<T::V> {
        views(self.0@)
    }
}

impl<T: WireItem> Wire for Items<T> {
    open spec fn form(value: Seq<T::V>) -> Seq<u8> {
        le_bytes(value.len(), 4) + items_form::<T>(value)
    }

    open spec fn refusal(value: Seq<T::V>) -> Option<WireError> {
        if value.len() > MAX_COLLECTION_ITEMS {
            Some(T::spec_too_many())
        } else {
            items_refusal::<T>(value)
        }
    }

    open spec fn parse(input: Seq<u8>) -> Parsed<Seq<T::V>> {
        match parse_number(input, 4) {
            Ok((count, rest)) => if count > MAX_COLLECTION_ITEMS {
                Err(WireError::TooManyItems)
            } else {
                parse_items::<T>(rest, count)
            },
            Err(error) => Err(error),
        }
    }

    open spec fn readable(value: Seq<T::V>) -> bool {
        items_readable::<T>(value)
    }

    open spec fn received(value: Seq<T::V>) -> Seq<T::V> {
        items_received::<T>(value)
    }

    proof fn round_trip(value: Seq<T::V>, rest: Seq<u8>) {
        lemma_byte_ranges();
        lemma_parse_le(value.len(), 4, items_form::<T>(value) + rest);
        lemma_items_round_trip::<T>(value, rest);
        assert(Self::form(value) + rest =~= le_bytes(value.len(), 4) + (items_form::<T>(value)
            + rest));
    }

    fn put(&self, output: &mut Vec<u8>) -> (result: Result<(), WireError>) {
        put_list(&self.0, output)
    }

    fn get(decoder: &mut Decoder<'_>) -> (result: Result<Items<T>, WireError>) {
        proof {
            lemma_byte_ranges();
        }
        match decoder.uint(4) {
            Some(count) => {
                if count > MAX_COLLECTION_ITEMS as u64 {
                    return Err(WireError::TooManyItems);
                }
                match get_items::<T>(decoder, count as usize) {
                    Ok(items) => Ok(Items(items)),
                    Err(error) => Err(error),
                }
            },
            None => Err(WireError::UnexpectedEnd),
        }
    }
}

/// Appends a list behind the number of its items.
pub fn put_list<T: WireItem>(items: &Vec<T>, output: &mut Vec<u8>) -> (result: Result<
    (),
    WireError,
>)
    ensures
        match Items::<T>::refusal(views(items@)) {
            None => result is Ok && final(output)@ == old(output)@ + Items::<T>::form(
                views(items@),
            ),
            Some(error) => result == Err::<(), WireError>(error),
        },
{
    if items.len() > MAX_COLLECTION_ITEMS {
        return Err(T::too_many());
    }
    put_le(output, items.len() as u64, 4);
    let result = put_items(items, output);
    proof {
        if result is Ok {
            assert(output@ =~= old(output)@ + Items::<T>::form(views(items@)));
        }
    }
    result
}

/// Reads `count` bytes as an array.
pub fn get_array<const N: usize>(decoder: &mut Decoder<'_>) -> (result: Result<[u8; N], WireError>)
    ensures
        match parse_slice(old(decoder)@, N as nat) {
            Some((bytes, rest)) => result is Ok && result->Ok_0@ == bytes && final(decoder)@
                == rest,
            None => result is Err && result->Err_0 == WireError::UnexpectedEnd,
        },
{
    match decoder.slice(N) {
        None => Err(WireError::UnexpectedEnd),
        Some(bytes) => {
            let mut array = [0u8; N];
            let mut index: usize = 0;
            while index < N
                invariant
                    index <= N,
                    bytes@.len() == N,
                    array@.len() == N,
                    forall|i: int| 0 <= i < index ==> array@[i] == bytes@[i],
                decreases N - index,
            {
                array[index] = bytes[index];
                index += 1;
            }
            proof {
                assert(array@ =~= bytes@);
            }
            Ok(array)
        },
    }
}

/// Bytes of a fixed number.
impl<const N: usize> Wire for [u8; N] {
    open spec fn form(value: Seq<u8>) -> Seq<u8> {
        value
    }

    open spec fn refusal(value: Seq<u8>) -> Option<WireError> {
        None
    }

    open spec fn parse(input: Seq<u8>) -> Parsed<Seq<u8>> {
        match parse_slice(input, N as nat) {
            Some((bytes, rest)) => Ok((bytes, rest)),
            None => Err(WireError::UnexpectedEnd),
        }
    }

    open spec fn readable(value: Seq<u8>) -> bool {
        value.len() == N
    }

    open spec fn received(value: Seq<u8>) -> Seq<u8> {
        value
    }

    proof fn round_trip(value: Seq<u8>, rest: Seq<u8>) {
        lemma_parse_slice(value, rest);
    }

    fn put(&self, output: &mut Vec<u8>) -> (result: Result<(), WireError>) {
        put_slice(output, self.as_slice());
        Ok(())
    }

    fn get(decoder: &mut Decoder<'_>) -> (result: Result<[u8; N], WireError>) {
        get_array::<N>(decoder)
    }
}

/// What the byte before an optional value is called.
pub trait OptionTag: Sized {
    spec fn spec_tag() -> Tag;

    fn tag() -> (tag: Tag)
        ensures
            tag == Self::spec_tag(),
    ;
}

/// A value that may be missing, behind a byte that says whether it is there.
pub struct Optional<T, M>(pub Option<T>, pub std::marker::PhantomData<M>);

/// What an optional value is.
pub open spec fn option_view<T: View>(value: Option<T>) -> Option<T::V> {
    match value {
        Some(value) => Some(value@),
        None => None,
    }
}

impl<T: View, M> View for Optional<T, M> {
    type V = Option<T::V>;

    open spec fn view(&self) -> Option<T::V> {
        option_view(self.0)
    }
}

impl<T: Wire, M: OptionTag> Wire for Optional<T, M> {
    open spec fn form(value: Option<T::V>) -> Seq<u8> {
        match value {
            Some(value) => seq![1u8] + T::form(value),
            None => seq![0u8],
        }
    }

    open spec fn refusal(value: Option<T::V>) -> Option<WireError> {
        match value {
            Some(value) => T::refusal(value),
            None => None,
        }
    }

    open spec fn parse(input: Seq<u8>) -> Parsed<Option<T::V>> {
        match u8::parse(input) {
            Err(error) => Err(error),
            Ok((tag, rest)) => if tag == 0 {
                Ok((None, rest))
            } else if tag == 1 {
                mapped(T::parse(rest), |value: T::V| Some(value))
            } else {
                Err(WireError::InvalidTag(M::spec_tag()))
            },
        }
    }

    open spec fn readable(value: Option<T::V>) -> bool {
        match value {
            Some(value) => T::readable(value),
            None => true,
        }
    }

    open spec fn received(value: Option<T::V>) -> Option<T::V> {
        match value {
            Some(value) => Some(T::received(value)),
            None => None,
        }
    }

    proof fn round_trip(value: Option<T::V>, rest: Seq<u8>) {
        match value {
            Some(value) => {
                let after_tag = T::form(value) + rest;
                u8::round_trip(1, after_tag);
                T::round_trip(value, rest);
                assert(Self::form(Some(value)) + rest =~= seq![1u8] + after_tag);
            },
            None => {
                u8::round_trip(0, rest);
            },
        }
    }

    fn put(&self, output: &mut Vec<u8>) -> (result: Result<(), WireError>) {
        put_optional(&self.0, output)
    }

    fn get(decoder: &mut Decoder<'_>) -> (result: Result<Optional<T, M>, WireError>) {
        match u8::get(decoder) {
            Err(error) => Err(error),
            Ok(0) => Ok(Optional(None, std::marker::PhantomData)),
            Ok(1) => match T::get(decoder) {
                Err(error) => Err(error),
                Ok(value) => Ok(Optional(Some(value), std::marker::PhantomData)),
            },
            Ok(_) => Err(WireError::InvalidTag(M::tag())),
        }
    }
}

/// Appends an optional value behind a byte that says whether it is there.
pub fn put_optional<T: Wire>(value: &Option<T>, output: &mut Vec<u8>) -> (result: Result<
    (),
    WireError,
>)
    ensures
        match option_view(*value) {
            None => result is Ok && final(output)@ == old(output)@ + seq![0u8],
            Some(value) => match T::refusal(value) {
                None => result is Ok && final(output)@ == old(output)@ + (seq![1u8] + T::form(
                    value,
                )),
                Some(error) => result == Err::<(), WireError>(error),
            },
        },
{
    match value {
        None => 0u8.put(output),
        Some(value) => {
            let _ = 1u8.put(output);
            if let Err(error) = value.put(output) {
                return Err(error);
            }
            proof {
                assert(output@ =~= old(output)@ + (seq![1u8] + T::form(value@)));
            }
            Ok(())
        },
    }
}

/// Appends the form of `value` behind `tag`.
pub fn put_tagged<T: Wire>(tag: u8, value: &T, output: &mut Vec<u8>) -> (result: Result<
    (),
    WireError,
>)
    ensures
        match T::refusal(value@) {
            None => result is Ok && final(output)@ == old(output)@ + (seq![tag] + T::form(value@)),
            Some(error) => result == Err::<(), WireError>(error),
        },
{
    output.push(tag);
    if let Err(error) = value.put(output) {
        return Err(error);
    }
    proof {
        assert(output@ =~= old(output)@ + (seq![tag] + T::form(value@)));
    }
    Ok(())
}

/// What reading a form that starts with `tag` begins with.
pub proof fn lemma_tagged(tag: u8, fields: Seq<u8>, rest: Seq<u8>)
    ensures
        u8::parse((seq![tag] + fields) + rest) == Parsed::<u8>::Ok((tag, fields + rest)),
{
    u8::round_trip(tag, fields + rest);
    assert((seq![tag] + fields) + rest =~= seq![tag] + (fields + rest));
}

} // verus!
