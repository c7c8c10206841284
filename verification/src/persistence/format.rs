//! The binary forms of a stored hierarchy and its parts.

use super::{
    Corruption, PersistedCoreLayout, PersistedLaunch, PersistedPane, PersistedPaneLayout,
    PersistedSpace, PersistedSplit, PersistedTab, RestoreDisposition, StoredHierarchy,
    StoredLayout, StoredSpace, StoredTab,
};
use crate::bytes::{
    copied, le_bytes, lemma_byte_ranges, lemma_parse_le, lemma_parse_slice, parse_le, parse_slice,
    put_le, put_slice, Decoder,
};
use crate::core_model::{DirectoryPath, PaneId, SpaceId, SplitAxis, SplitId, SplitRatio, TabId};
use crate::sequences::views;
use crate::text::utf8_text;
use vstd::prelude::*;
use vstd::string::*;
use vstd::utf8::{
    decode_utf8, encode_utf8, encode_utf8_decode_utf8, encode_utf8_valid_utf8, valid_utf8,
};

verus! {

/// The most items that a list may have.
pub const MAX_ITEMS: usize = 16384;

/// The most bytes that a name or a path may have.
pub const MAX_VALUE_BYTES: usize = 1048576;

/// How deep splits may be nested.
pub const MAX_LAYOUT_DEPTH: usize = 256;

/// A value read from the front of some bytes, and the bytes after it.
pub type Read<T> = Result<(T, Seq<u8>), Corruption>;

/// A value that is stored in binary.
pub trait Stored: View + Sized {
    /// The form of `value`.
    spec fn form(value: Self::V) -> Seq<u8>;

    /// Why `value` has no form.
    spec fn refusal(value: Self::V) -> Option<Corruption>;

    /// The value at the front of `input`.
    spec fn parse(input: Seq<u8>) -> Read<Self::V>;

    /// Whether the form of `value` can be read.
    spec fn readable(value: Self::V) -> bool;

    /// Reading what was written gives it back.
    proof fn round_trip(value: Self::V, rest: Seq<u8>)
        requires
            Self::refusal(value) is None,
            Self::readable(value),
        ensures
            Self::parse(Self::form(value) + rest) == Read::<Self::V>::Ok((value, rest)),
    ;

    fn put(&self, output: &mut Vec<u8>) -> (result: Result<(), Corruption>)
        ensures
            match Self::refusal(self@) {
                None => result is Ok && final(output)@ == old(output)@ + Self::form(self@),
                Some(error) => result == Err::<(), Corruption>(error),
            },
    ;

    fn get(decoder: &mut Decoder<'_>) -> (result: Result<Self, Corruption>)
        ensures
            match Self::parse(old(decoder)@) {
                Ok((value, rest)) => result is Ok && result->Ok_0@ == value && final(decoder)@
                    == rest,
                Err(error) => result is Err && result->Err_0 == error,
            },
    ;
}

/// The number in the first `width` bytes.
pub open spec fn parse_number(input: Seq<u8>, width: nat) -> Read<nat> {
    match parse_le(input, width) {
        Some((number, rest)) => Ok((number, rest)),
        None => Err(Corruption::Truncated),
    }
}

/// The first `length` bytes.
pub open spec fn parse_bytes(input: Seq<u8>, length: nat) -> Read<Seq<u8>> {
    match parse_slice(input, length) {
        Some((bytes, rest)) => Ok((bytes, rest)),
        None => Err(Corruption::Truncated),
    }
}

pub fn get_number(decoder: &mut Decoder<'_>, width: usize) -> (result: Result<u64, Corruption>)
    requires
        width <= 8,
    ensures
        match parse_number(old(decoder)@, width as nat) {
            Ok((number, rest)) => result is Ok && result->Ok_0 == number && number
                < crate::bytes::byte_range(width as nat) && final(decoder)@ == rest,
            Err(error) => result is Err && result->Err_0 == error,
        },
{
    match decoder.uint(width) {
        Some(number) => Ok(number),
        None => Err(Corruption::Truncated),
    }
}

pub fn get_bytes<'a>(decoder: &mut Decoder<'a>, length: usize) -> (result: Result<
    &'a [u8],
    Corruption,
>)
    ensures
        match parse_bytes(old(decoder)@, length as nat) {
            Ok((bytes, rest)) => result is Ok && result->Ok_0@ == bytes && final(decoder)@ == rest,
            Err(error) => result is Err && result->Err_0 == error,
        },
{
    match decoder.slice(length) {
        Some(bytes) => Ok(bytes),
        None => Err(Corruption::Truncated),
    }
}

impl Stored for u64 {
    open spec fn form(value: u64) -> Seq<u8> {
        le_bytes(value as nat, 8)
    }

    open spec fn refusal(value: u64) -> Option<Corruption> {
        None
    }

    open spec fn parse(input: Seq<u8>) -> Read<u64> {
        match parse_number(input, 8) {
            Ok((number, rest)) => Ok((number as u64, rest)),
            Err(error) => Err(error),
        }
    }

    open spec fn readable(value: u64) -> bool {
        true
    }

    proof fn round_trip(value: u64, rest: Seq<u8>) {
        lemma_byte_ranges();
        lemma_parse_le(value as nat, 8, rest);
    }

    fn put(&self, output: &mut Vec<u8>) -> (result: Result<(), Corruption>) {
        put_le(output, *self, 8);
        Ok(())
    }

    fn get(decoder: &mut Decoder<'_>) -> (result: Result<u64, Corruption>) {
        get_number(decoder, 8)
    }
}

impl Stored for u8 {
    open spec fn form(value: u8) -> Seq<u8> {
        seq![value]
    }

    open spec fn refusal(value: u8) -> Option<Corruption> {
        None
    }

    open spec fn parse(input: Seq<u8>) -> Read<u8> {
        if input.len() > 0 {
            Ok((input[0], input.skip(1)))
        } else {
            Err(Corruption::Truncated)
        }
    }

    open spec fn readable(value: u8) -> bool {
        true
    }

    proof fn round_trip(value: u8, rest: Seq<u8>) {
        assert((seq![value] + rest).skip(1) =~= rest);
    }

    fn put(&self, output: &mut Vec<u8>) -> (result: Result<(), Corruption>) {
        output.push(*self);
        proof {
            assert(output@ =~= old(output)@ + seq![*self]);
        }
        Ok(())
    }

    fn get(decoder: &mut Decoder<'_>) -> (result: Result<u8, Corruption>) {
        match decoder.slice(1) {
            Some(bytes) => Ok(bytes[0]),
            None => Err(Corruption::Truncated),
        }
    }
}

/// The bytes of a path behind their number.
impl Stored for DirectoryPath {
    open spec fn form(value: Seq<u8>) -> Seq<u8> {
        le_bytes(value.len(), 4) + value
    }

    open spec fn refusal(value: Seq<u8>) -> Option<Corruption> {
        if value.len() > MAX_VALUE_BYTES {
            Some(Corruption::ValueTooLarge)
        } else {
            None
        }
    }

    open spec fn parse(input: Seq<u8>) -> Read<Seq<u8>> {
        match parse_number(input, 4) {
            Err(error) => Err(error),
            Ok((length, rest)) => if length > MAX_VALUE_BYTES {
                Err(Corruption::ValueTooLarge)
            } else {
                parse_bytes(rest, length)
            },
        }
    }

    open spec fn readable(value: Seq<u8>) -> bool {
        true
    }

    proof fn round_trip(value: Seq<u8>, rest: Seq<u8>) {
        lemma_byte_ranges();
        lemma_parse_le(value.len(), 4, value + rest);
        lemma_parse_slice(value, rest);
        assert(Self::form(value) + rest =~= le_bytes(value.len(), 4) + (value + rest));
    }

    fn put(&self, output: &mut Vec<u8>) -> (result: Result<(), Corruption>) {
        put_value(self.bytes.as_slice(), output)
    }

    fn get(decoder: &mut Decoder<'_>) -> (result: Result<DirectoryPath, Corruption>) {
        match get_value(decoder) {
            Ok(bytes) => Ok(DirectoryPath { bytes: copied(bytes) }),
            Err(error) => Err(error),
        }
    }
}

fn put_value(value: &[u8], output: &mut Vec<u8>) -> (result: Result<(), Corruption>)
    ensures
        match <DirectoryPath as Stored>::refusal(value@) {
            None => result is Ok && final(output)@ == old(output)@
                + <DirectoryPath as Stored>::form(value@),
            Some(error) => result == Err::<(), Corruption>(error),
        },
{
    if value.len() > MAX_VALUE_BYTES {
        return Err(Corruption::ValueTooLarge);
    }
    put_le(output, value.len() as u64, 4);
    put_slice(output, value);
    proof {
        assert(output@ =~= old(output)@ + <DirectoryPath as Stored>::form(value@));
    }
    Ok(())
}

fn get_value<'a>(decoder: &mut Decoder<'a>) -> (result: Result<&'a [u8], Corruption>)
    ensures
        match <DirectoryPath as Stored>::parse(old(decoder)@) {
            Ok((value, rest)) => result is Ok && result->Ok_0@ == value && final(decoder)@ == rest,
            Err(error) => result is Err && result->Err_0 == error,
        },
{
    match get_number(decoder, 4) {
        Err(error) => Err(error),
        Ok(length) => {
            if length > MAX_VALUE_BYTES as u64 {
                return Err(Corruption::ValueTooLarge);
            }
            get_bytes(decoder, length as usize)
        },
    }
}

/// Text in UTF-8 behind the number of its bytes.
impl Stored for String {
    open spec fn form(value: Seq<char>) -> Seq<u8> {
        <DirectoryPath as Stored>::form(encode_utf8(value))
    }

    open spec fn refusal(value: Seq<char>) -> Option<Corruption> {
        <DirectoryPath as Stored>::refusal(encode_utf8(value))
    }

    open spec fn parse(input: Seq<u8>) -> Read<Seq<char>> {
        match <DirectoryPath as Stored>::parse(input) {
            Err(error) => Err(error),
            Ok((bytes, rest)) => if valid_utf8(bytes) {
                Ok((decode_utf8(bytes), rest))
            } else {
                Err(Corruption::NotUtf8)
            },
        }
    }

    open spec fn readable(value: Seq<char>) -> bool {
        true
    }

    proof fn round_trip(value: Seq<char>, rest: Seq<u8>) {
        <DirectoryPath as Stored>::round_trip(encode_utf8(value), rest);
        encode_utf8_valid_utf8(value);
        encode_utf8_decode_utf8(value);
    }

    fn put(&self, output: &mut Vec<u8>) -> (result: Result<(), Corruption>) {
        put_value(self.as_str().as_bytes(), output)
    }

    fn get(decoder: &mut Decoder<'_>) -> (result: Result<String, Corruption>) {
        match get_value(decoder) {
            Err(error) => Err(error),
            Ok(bytes) => match utf8_text(bytes) {
                Some(text) => Ok(text),
                None => Err(Corruption::NotUtf8),
            },
        }
    }
}

/// One value after another.
impl<A: Stored, B: Stored> Stored for (A, B) {
    open spec fn form(value: (A::V, B::V)) -> Seq<u8> {
        A::form(value.0) + B::form(value.1)
    }

    open spec fn refusal(value: (A::V, B::V)) -> Option<Corruption> {
        match A::refusal(value.0) {
            Some(error) => Some(error),
            None => B::refusal(value.1),
        }
    }

    open spec fn parse(input: Seq<u8>) -> Read<(A::V, B::V)> {
        match A::parse(input) {
            Ok((first, rest)) => match B::parse(rest) {
                Ok((second, rest)) => Ok(((first, second), rest)),
                Err(error) => Err(error),
            },
            Err(error) => Err(error),
        }
    }

    open spec fn readable(value: (A::V, B::V)) -> bool {
        A::readable(value.0) && B::readable(value.1)
    }

    proof fn round_trip(value: (A::V, B::V), rest: Seq<u8>) {
        A::round_trip(value.0, B::form(value.1) + rest);
        B::round_trip(value.1, rest);
        assert(Self::form(value) + rest =~= A::form(value.0) + (B::form(value.1) + rest));
    }

    fn put(&self, output: &mut Vec<u8>) -> (result: Result<(), Corruption>) {
        if let Err(error) = self.0.put(output) {
            return Err(error);
        }
        if let Err(error) = self.1.put(output) {
            return Err(error);
        }
        proof {
            assert(output@ =~= old(output)@ + Self::form(self@));
        }
        Ok(())
    }

    fn get(decoder: &mut Decoder<'_>) -> (result: Result<(A, B), Corruption>) {
        match A::get(decoder) {
            Ok(first) => match B::get(decoder) {
                Ok(second) => Ok((first, second)),
                Err(error) => Err(error),
            },
            Err(error) => Err(error),
        }
    }
}

/// The forms of `values`, one after another.
pub open spec fn items_form<T: Stored>(values: Seq<T::V>) -> Seq<u8>
    decreases values.len(),
{
    if values.len() == 0 {
        Seq::empty()
    } else {
        items_form::<T>(values.drop_last()) + T::form(values.last())
    }
}

/// The first objection to one of `values`.
pub open spec fn items_refusal<T: Stored>(values: Seq<T::V>) -> Option<Corruption>
    decreases values.len(),
{
    if values.len() == 0 {
        None
    } else {
        match items_refusal::<T>(values.drop_last()) {
            Some(error) => Some(error),
            None => T::refusal(values.last()),
        }
    }
}

/// The `count` values at the front of `input`.
pub open spec fn parse_items<T: Stored>(input: Seq<u8>, count: nat) -> Read<Seq<T::V>>
    decreases count,
{
    if count == 0 {
        Ok((Seq::empty(), input))
    } else {
        match parse_items::<T>(input, (count - 1) as nat) {
            Ok((values, rest)) => match T::parse(rest) {
                Ok((value, rest)) => Ok((values.push(value), rest)),
                Err(error) => Err(error),
            },
            Err(error) => Err(error),
        }
    }
}

proof fn lemma_items_error<T: Stored>(input: Seq<u8>, failed: nat, count: nat)
    requires
        failed <= count,
        parse_items::<T>(input, failed) is Err,
    ensures
        parse_items::<T>(input, count) is Err,
        parse_items::<T>(input, count)->Err_0 == parse_items::<T>(input, failed)->Err_0,
    decreases count,
{
    if failed < count {
        lemma_items_error::<T>(input, failed, (count - 1) as nat);
    }
}

proof fn lemma_items_refusal<T: Stored>(values: Seq<T::V>, count: int)
    requires
        0 <= count <= values.len(),
        items_refusal::<T>(values.take(count)) is Some,
    ensures
        items_refusal::<T>(values) == items_refusal::<T>(values.take(count)),
    decreases values.len() - count,
{
    if count < values.len() {
        assert(values.take(count + 1).drop_last() =~= values.take(count));
        lemma_items_refusal::<T>(values, count + 1);
    } else {
        assert(values.take(count) =~= values);
    }
}

proof fn lemma_items_round_trip<T: Stored>(values: Seq<T::V>, rest: Seq<u8>)
    requires
        items_refusal::<T>(values) is None,
        forall|i: int| 0 <= i < values.len() ==> T::readable(#[trigger] values[i]),
    ensures
        parse_items::<T>(items_form::<T>(values) + rest, values.len()) == Read::<Seq<T::V>>::Ok(
            (values, rest),
        ),
    decreases values.len(),
{
    if values.len() == 0 {
        assert(items_form::<T>(values) + rest =~= rest);
        assert(values =~= Seq::empty());
    } else {
        let initial = values.drop_last();
        let last = T::form(values.last());
        assert forall|i: int| 0 <= i < initial.len() implies T::readable(
            #[trigger] initial[i],
        ) by {
            assert(initial[i] == values[i]);
        }
        lemma_items_round_trip::<T>(initial, last + rest);
        T::round_trip(values.last(), rest);
        assert(items_form::<T>(values) + rest =~= items_form::<T>(initial) + (last + rest));
        assert(values =~= initial.push(values.last()));
    }
}

/// A list behind the number of its items.
pub struct Items<T>(pub Vec<T>);

impl<T: View> View for Items<T> {
    type V = Seq<T::V>;

    open spec fn view(&self) -> Seq<T::V> {
        views(self.0@)
    }
}

impl<T: Stored> Stored for Items<T> {
    open spec fn form(value: Seq<T::V>) -> Seq<u8> {
        le_bytes(value.len(), 4) + items_form::<T>(value)
    }

    open spec fn refusal(value: Seq<T::V>) -> Option<Corruption> {
        if value.len() > MAX_ITEMS {
            Some(Corruption::TooManyItems)
        } else {
            items_refusal::<T>(value)
        }
    }

    open spec fn parse(input: Seq<u8>) -> Read<Seq<T::V>> {
        match parse_number(input, 4) {
            Ok((count, rest)) => if count > MAX_ITEMS {
                Err(Corruption::TooManyItems)
            } else {
                parse_items::<T>(rest, count)
            },
            Err(error) => Err(error),
        }
    }

    open spec fn readable(value: Seq<T::V>) -> bool {
        forall|i: int| 0 <= i < value.len() ==> T::readable(#[trigger] value[i])
    }

    proof fn round_trip(value: Seq<T::V>, rest: Seq<u8>) {
        lemma_byte_ranges();
        lemma_parse_le(value.len(), 4, items_form::<T>(value) + rest);
        lemma_items_round_trip::<T>(value, rest);
        assert(Self::form(value) + rest =~= le_bytes(value.len(), 4) + (items_form::<T>(value)
            + rest));
    }

    fn put(&self, output: &mut Vec<u8>) -> (result: Result<(), Corruption>) {
        put_list(&self.0, output)
    }

    fn get(decoder: &mut Decoder<'_>) -> (result: Result<Items<T>, Corruption>) {
        let count = match get_number(decoder, 4) {
            Err(error) => return Err(error),
            Ok(count) => count,
        };
        if count > MAX_ITEMS as u64 {
            return Err(Corruption::TooManyItems);
        }
        let ghost input = decoder@;
        let mut items: Vec<T> = Vec::new();
        let mut index: u64 = 0;
        proof {
            assert(views(items@) =~= Seq::empty());
        }
        while index < count
            invariant
                index <= count <= MAX_ITEMS,
                parse_items::<T>(input, index as nat) == Read::<Seq<T::V>>::Ok(
                    (views(items@), decoder@),
                ),
                Self::parse(old(decoder)@) == parse_items::<T>(input, count as nat),
            decreases count - index,
        {
            let ghost before = items@;
            match T::get(decoder) {
                Ok(item) => {
                    items.push(item);
                    proof {
                        assert(views(items@) =~= views(before).push(item@));
                    }
                },
                Err(error) => {
                    proof {
                        lemma_items_error::<T>(input, (index + 1) as nat, count as nat);
                    }
                    return Err(error);
                },
            }
            index += 1;
        }
        Ok(Items(items))
    }
}

fn put_list<T: Stored>(items: &Vec<T>, output: &mut Vec<u8>) -> (result: Result<(), Corruption>)
    ensures
        match Items::<T>::refusal(views(items@)) {
            None => result is Ok && final(output)@ == old(output)@ + Items::<T>::form(
                views(items@),
            ),
            Some(error) => result == Err::<(), Corruption>(error),
        },
{
    if items.len() > MAX_ITEMS {
        return Err(Corruption::TooManyItems);
    }
    put_le(output, items.len() as u64, 4);
    let ghost counted = output@;
    let ghost values = views(items@);
    let mut index: usize = 0;
    proof {
        assert(output@ =~= counted + items_form::<T>(values.take(0)));
    }
    while index < items.len()
        invariant
            index <= items@.len(),
            values == views(items@),
            items_refusal::<T>(values.take(index as int)) is None,
            output@ == counted + items_form::<T>(values.take(index as int)),
            items@.len() <= MAX_ITEMS,
        decreases items@.len() - index,
    {
        proof {
            assert(values.take(index + 1).drop_last() =~= values.take(index as int));
            assert(values.take(index + 1).last() == items@[index as int]@);
        }
        if let Err(error) = items[index].put(output) {
            proof {
                lemma_items_refusal::<T>(values, index + 1);
            }
            return Err(error);
        }
        index += 1;
        proof {
            assert(output@ =~= counted + items_form::<T>(values.take(index as int)));
        }
    }
    proof {
        assert(values.take(index as int) =~= values);
        assert(output@ =~= old(output)@ + Items::<T>::form(values));
    }
    Ok(())
}

impl Stored for RestoreDisposition {
    open spec fn form(value: RestoreDisposition) -> Seq<u8> {
        match value {
            RestoreDisposition::Relaunch => seq![0u8],
            RestoreDisposition::RemainEnded => seq![1u8],
        }
    }

    open spec fn refusal(value: RestoreDisposition) -> Option<Corruption> {
        None
    }

    open spec fn parse(input: Seq<u8>) -> Read<RestoreDisposition> {
        match <u8 as Stored>::parse(input) {
            Err(error) => Err(error),
            Ok((tag, rest)) => if tag == 0 {
                Ok((RestoreDisposition::Relaunch, rest))
            } else if tag == 1 {
                Ok((RestoreDisposition::RemainEnded, rest))
            } else {
                Err(Corruption::DispositionTag(tag))
            },
        }
    }

    open spec fn readable(value: RestoreDisposition) -> bool {
        true
    }

    proof fn round_trip(value: RestoreDisposition, rest: Seq<u8>) {
        <u8 as Stored>::round_trip(Self::form(value)[0], rest);
    }

    fn put(&self, output: &mut Vec<u8>) -> (result: Result<(), Corruption>) {
        match self {
            RestoreDisposition::Relaunch => Stored::put(&0u8, output),
            RestoreDisposition::RemainEnded => Stored::put(&1u8, output),
        }
    }

    fn get(decoder: &mut Decoder<'_>) -> (result: Result<RestoreDisposition, Corruption>) {
        match <u8 as Stored>::get(decoder) {
            Err(error) => Err(error),
            Ok(0) => Ok(RestoreDisposition::Relaunch),
            Ok(1) => Ok(RestoreDisposition::RemainEnded),
            Ok(tag) => Err(Corruption::DispositionTag(tag)),
        }
    }
}

impl View for RestoreDisposition {
    type V = RestoreDisposition;

    open spec fn view(&self) -> RestoreDisposition {
        *self
    }
}

impl Stored for SplitAxis {
    open spec fn form(value: SplitAxis) -> Seq<u8> {
        match value {
            SplitAxis::Horizontal => seq![0u8],
            SplitAxis::Vertical => seq![1u8],
        }
    }

    open spec fn refusal(value: SplitAxis) -> Option<Corruption> {
        None
    }

    open spec fn parse(input: Seq<u8>) -> Read<SplitAxis> {
        match <u8 as Stored>::parse(input) {
            Err(error) => Err(error),
            Ok((tag, rest)) => if tag == 0 {
                Ok((SplitAxis::Horizontal, rest))
            } else if tag == 1 {
                Ok((SplitAxis::Vertical, rest))
            } else {
                Err(Corruption::AxisTag(tag))
            },
        }
    }

    open spec fn readable(value: SplitAxis) -> bool {
        true
    }

    proof fn round_trip(value: SplitAxis, rest: Seq<u8>) {
        <u8 as Stored>::round_trip(<SplitAxis as Stored>::form(value)[0], rest);
    }

    fn put(&self, output: &mut Vec<u8>) -> (result: Result<(), Corruption>) {
        match self {
            SplitAxis::Horizontal => Stored::put(&0u8, output),
            SplitAxis::Vertical => Stored::put(&1u8, output),
        }
    }

    fn get(decoder: &mut Decoder<'_>) -> (result: Result<SplitAxis, Corruption>) {
        match <u8 as Stored>::get(decoder) {
            Err(error) => Err(error),
            Ok(0) => Ok(SplitAxis::Horizontal),
            Ok(1) => Ok(SplitAxis::Vertical),
            Ok(tag) => Err(Corruption::AxisTag(tag)),
        }
    }
}

impl Stored for SplitRatio {
    open spec fn form(value: SplitRatio) -> Seq<u8> {
        le_bytes(value.parts() as nat, 2)
    }

    open spec fn refusal(value: SplitRatio) -> Option<Corruption> {
        None
    }

    open spec fn parse(input: Seq<u8>) -> Read<SplitRatio> {
        match parse_number(input, 2) {
            Err(error) => Err(error),
            Ok((parts, rest)) => if SplitRatio::valid_parts(parts as u16) {
                Ok((SplitRatio::of_parts(parts as u16), rest))
            } else {
                Err(Corruption::SplitRatio(parts as u16))
            },
        }
    }

    open spec fn readable(value: SplitRatio) -> bool {
        SplitRatio::valid_parts(value.parts())
    }

    proof fn round_trip(value: SplitRatio, rest: Seq<u8>) {
        lemma_byte_ranges();
        lemma_parse_le(value.parts() as nat, 2, rest);
        value.lemma_of_parts(value.parts());
    }

    fn put(&self, output: &mut Vec<u8>) -> (result: Result<(), Corruption>) {
        put_le(output, self.parts_per_thousand() as u64, 2);
        Ok(())
    }

    fn get(decoder: &mut Decoder<'_>) -> (result: Result<SplitRatio, Corruption>) {
        proof {
            lemma_byte_ranges();
        }
        match get_number(decoder, 2) {
            Err(error) => Err(error),
            Ok(parts) => match SplitRatio::new(parts as u16) {
                Ok(ratio) => Ok(ratio),
                Err(_) => Err(Corruption::SplitRatio(parts as u16)),
            },
        }
    }
}

/// The fields of a stored Pane.
pub type PaneForm = (u64, (DirectoryPath, RestoreDisposition));

/// The fields of a stored split before its two sides.
pub type SplitForm = (u64, (SplitAxis, SplitRatio));

pub open spec fn layout_form(layout: StoredLayout) -> Seq<u8>
    decreases layout,
{
    match layout {
        StoredLayout::Pane { id, directory, disposition } => seq![0u8] + PaneForm::form(
            (id.0, (directory, disposition)),
        ),
        StoredLayout::Split { id, axis, ratio, first, second } => seq![1u8] + (SplitForm::form(
            (id.0, (axis, ratio)),
        ) + (layout_form(*first) + layout_form(*second))),
    }
}

/// The objection to a layout at nesting `depth`.
pub open spec fn layout_refusal(layout: StoredLayout, depth: nat) -> Option<Corruption>
    decreases layout,
{
    if depth > MAX_LAYOUT_DEPTH {
        Some(Corruption::LayoutTooDeep)
    } else {
        match layout {
            StoredLayout::Pane { directory, .. } => <DirectoryPath as Stored>::refusal(directory),
            StoredLayout::Split { first, second, .. } => match layout_refusal(*first, depth + 1) {
                Some(error) => Some(error),
                None => layout_refusal(*second, depth + 1),
            },
        }
    }
}

pub open spec fn layout_readable(layout: StoredLayout) -> bool
    decreases layout,
{
    match layout {
        StoredLayout::Pane { .. } => true,
        StoredLayout::Split { ratio, first, second, .. } => <SplitRatio as Stored>::readable(ratio)
            && layout_readable(*first) && layout_readable(*second),
    }
}

/// The layout at the front of `input`, at nesting `depth`.
pub open spec fn parse_layout(input: Seq<u8>, depth: nat) -> Read<StoredLayout>
    decreases MAX_LAYOUT_DEPTH + 1 - depth,
{
    if depth > MAX_LAYOUT_DEPTH {
        Err(Corruption::LayoutTooDeep)
    } else {
        match <u8 as Stored>::parse(input) {
            Err(error) => Err(error),
            Ok((tag, rest)) => if tag == 0 {
                match PaneForm::parse(rest) {
                    Err(error) => Err(error),
                    Ok(((id, (directory, disposition)), rest)) => Ok(
                        (StoredLayout::Pane { id: PaneId(id), directory, disposition }, rest),
                    ),
                }
            } else if tag == 1 {
                match SplitForm::parse(rest) {
                    Err(error) => Err(error),
                    Ok(((id, (axis, ratio)), rest)) => match parse_layout(rest, depth + 1) {
                        Err(error) => Err(error),
                        Ok((first, rest)) => match parse_layout(rest, depth + 1) {
                            Err(error) => Err(error),
                            Ok((second, rest)) => Ok(
                                (
                                    StoredLayout::Split {
                                        id: SplitId(id),
                                        axis,
                                        ratio,
                                        first: Box::new(first),
                                        second: Box::new(second),
                                    },
                                    rest,
                                ),
                            ),
                        },
                    },
                }
            } else {
                Err(Corruption::LayoutTag(tag))
            },
        }
    }
}

proof fn lemma_split_parts(
    id: SplitId,
    axis: SplitAxis,
    ratio: SplitRatio,
    first: StoredLayout,
    second: StoredLayout,
    depth: nat,
    input: Seq<u8>,
    after_tag: Seq<u8>,
    after_fields: Seq<u8>,
    after_first: Seq<u8>,
    rest: Seq<u8>,
)
    requires
        depth <= MAX_LAYOUT_DEPTH,
        <u8 as Stored>::parse(input) == Read::<u8>::Ok((1, after_tag)),
        SplitForm::parse(after_tag) == Read::<(u64, (SplitAxis, SplitRatio))>::Ok(
            ((id.0, (axis, ratio)), after_fields),
        ),
        parse_layout(after_fields, depth + 1) == Read::<StoredLayout>::Ok((first, after_first)),
        parse_layout(after_first, depth + 1) == Read::<StoredLayout>::Ok((second, rest)),
    ensures
        parse_layout(input, depth) == Read::<StoredLayout>::Ok(
            (
                StoredLayout::Split {
                    id,
                    axis,
                    ratio,
                    first: Box::new(first),
                    second: Box::new(second),
                },
                rest,
            ),
        ),
{
}

proof fn lemma_pane_parts(
    id: PaneId,
    directory: Seq<u8>,
    disposition: RestoreDisposition,
    depth: nat,
    input: Seq<u8>,
    after_tag: Seq<u8>,
    rest: Seq<u8>,
)
    requires
        depth <= MAX_LAYOUT_DEPTH,
        <u8 as Stored>::parse(input) == Read::<u8>::Ok((0, after_tag)),
        PaneForm::parse(after_tag) == Read::<(u64, (Seq<u8>, RestoreDisposition))>::Ok(
            ((id.0, (directory, disposition)), rest),
        ),
    ensures
        parse_layout(input, depth) == Read::<StoredLayout>::Ok(
            (StoredLayout::Pane { id, directory, disposition }, rest),
        ),
{
}

proof fn lemma_layout_round_trip(layout: StoredLayout, depth: nat, rest: Seq<u8>)
    requires
        layout_refusal(layout, depth) is None,
        layout_readable(layout),
    ensures
        parse_layout(layout_form(layout) + rest, depth) == Read::<StoredLayout>::Ok(
            (layout, rest),
        ),
    decreases layout,
{
    let input = layout_form(layout) + rest;
    match layout {
        StoredLayout::Pane { id, directory, disposition } => {
            let fields = (id.0, (directory, disposition));
            let after_tag = PaneForm::form(fields) + rest;
            assert(input =~= seq![0u8] + after_tag);
            <u8 as Stored>::round_trip(0, after_tag);
            PaneForm::round_trip(fields, rest);
            lemma_pane_parts(id, directory, disposition, depth, input, after_tag, rest);
        },
        StoredLayout::Split { id, axis, ratio, first, second } => {
            let fields = (id.0, (axis, ratio));
            let after_first = layout_form(*second) + rest;
            let after_fields = layout_form(*first) + after_first;
            let after_tag = SplitForm::form(fields) + after_fields;
            assert(input =~= seq![1u8] + after_tag);
            <u8 as Stored>::round_trip(1, after_tag);
            SplitForm::round_trip(fields, after_fields);
            lemma_layout_round_trip(*first, depth + 1, after_first);
            lemma_layout_round_trip(*second, depth + 1, rest);
            lemma_split_parts(
                id,
                axis,
                ratio,
                *first,
                *second,
                depth,
                input,
                after_tag,
                after_fields,
                after_first,
                rest,
            );
        },
    }
}

pub fn encode_pane_layout(
    output: &mut Vec<u8>,
    layout: &PersistedPaneLayout,
    depth: usize,
) -> (result: Result<(), Corruption>)
    ensures
        match layout_refusal(layout@, depth as nat) {
            None => result is Ok && final(output)@ == old(output)@ + layout_form(layout@),
            Some(error) => result == Err::<(), Corruption>(error),
        },
    decreases layout,
{
    if depth > MAX_LAYOUT_DEPTH {
        return Err(Corruption::LayoutTooDeep);
    }
    match layout {
        PersistedPaneLayout::Pane(pane) => {
            let _ = Stored::put(&(0u8, pane.id.0), output);
            if let Err(error) = Stored::put(&pane.launch.working_directory, output) {
                return Err(error);
            }
            let _ = Stored::put(&pane.launch.restore_disposition, output);
            proof {
                assert(output@ =~= old(output)@ + layout_form(layout@));
            }
        },
        PersistedPaneLayout::Split(split) => {
            let _ = Stored::put(&(1u8, (split.id.0, (split.axis, split.ratio))), output);
            if let Err(error) = encode_pane_layout(output, &split.first, depth + 1) {
                return Err(error);
            }
            if let Err(error) = encode_pane_layout(output, &split.second, depth + 1) {
                return Err(error);
            }
            proof {
                assert(output@ =~= old(output)@ + layout_form(layout@));
            }
        },
    }
    Ok(())
}

pub fn decode_pane_layout(decoder: &mut Decoder<'_>, depth: usize) -> (result: Result<
    PersistedPaneLayout,
    Corruption,
>)
    ensures
        match parse_layout(old(decoder)@, depth as nat) {
            Ok((layout, rest)) => result is Ok && result->Ok_0@ == layout && final(decoder)@
                == rest,
            Err(error) => result is Err && result->Err_0 == error,
        },
    decreases MAX_LAYOUT_DEPTH + 1 - depth,
{
    if depth > MAX_LAYOUT_DEPTH {
        return Err(Corruption::LayoutTooDeep);
    }
    match <u8 as Stored>::get(decoder) {
        Err(error) => Err(error),
        Ok(0) => match PaneForm::get(decoder) {
            Err(error) => Err(error),
            Ok((id, (working_directory, restore_disposition))) => Ok(
                PersistedPaneLayout::Pane(
                    PersistedPane {
                        id: PaneId(id),
                        launch: PersistedLaunch { working_directory, restore_disposition },
                    },
                ),
            ),
        },
        Ok(1) => {
            let (id, (axis, ratio)) = match SplitForm::get(decoder) {
                Err(error) => return Err(error),
                Ok(fields) => fields,
            };
            let first = match decode_pane_layout(decoder, depth + 1) {
                Err(error) => return Err(error),
                Ok(first) => first,
            };
            let second = match decode_pane_layout(decoder, depth + 1) {
                Err(error) => return Err(error),
                Ok(second) => second,
            };
            Ok(
                PersistedPaneLayout::Split(
                    PersistedSplit {
                        id: SplitId(id),
                        axis,
                        ratio,
                        first: Box::new(first),
                        second: Box::new(second),
                    },
                ),
            )
        },
        Ok(tag) => Err(Corruption::LayoutTag(tag)),
    }
}

impl Stored for PersistedPaneLayout {
    open spec fn form(value: StoredLayout) -> Seq<u8> {
        layout_form(value)
    }

    open spec fn refusal(value: StoredLayout) -> Option<Corruption> {
        layout_refusal(value, 0)
    }

    open spec fn parse(input: Seq<u8>) -> Read<StoredLayout> {
        parse_layout(input, 0)
    }

    open spec fn readable(value: StoredLayout) -> bool {
        layout_readable(value)
    }

    proof fn round_trip(value: StoredLayout, rest: Seq<u8>) {
        lemma_layout_round_trip(value, 0, rest);
    }

    fn put(&self, output: &mut Vec<u8>) -> (result: Result<(), Corruption>) {
        encode_pane_layout(output, self, 0)
    }

    fn get(decoder: &mut Decoder<'_>) -> (result: Result<PersistedPaneLayout, Corruption>) {
        decode_pane_layout(decoder, 0)
    }
}

pub type TabForm = (u64, (String, PersistedPaneLayout));

impl Stored for PersistedTab {
    open spec fn form(value: StoredTab) -> Seq<u8> {
        TabForm::form((value.id.0, (value.name, value.layout)))
    }

    open spec fn refusal(value: StoredTab) -> Option<Corruption> {
        TabForm::refusal((value.id.0, (value.name, value.layout)))
    }

    open spec fn parse(input: Seq<u8>) -> Read<StoredTab> {
        match TabForm::parse(input) {
            Err(error) => Err(error),
            Ok(((id, (name, layout)), rest)) => Ok(
                (StoredTab { id: TabId(id), name, layout }, rest),
            ),
        }
    }

    open spec fn readable(value: StoredTab) -> bool {
        layout_readable(value.layout)
    }

    proof fn round_trip(value: StoredTab, rest: Seq<u8>) {
        TabForm::round_trip((value.id.0, (value.name, value.layout)), rest);
    }

    fn put(&self, output: &mut Vec<u8>) -> (result: Result<(), Corruption>) {
        let _ = Stored::put(&self.id.0, output);
        if let Err(error) = Stored::put(&self.name, output) {
            return Err(error);
        }
        if let Err(error) = Stored::put(&self.layout, output) {
            return Err(error);
        }
        proof {
            assert(output@ =~= old(output)@ + Self::form(self@));
        }
        Ok(())
    }

    fn get(decoder: &mut Decoder<'_>) -> (result: Result<PersistedTab, Corruption>) {
        match TabForm::get(decoder) {
            Err(error) => Err(error),
            Ok((id, (name, layout))) => Ok(PersistedTab { id: TabId(id), name, layout }),
        }
    }
}

pub type SpaceForm = (u64, (String, (DirectoryPath, Items<PersistedTab>)));

pub open spec fn space_fields(space: StoredSpace) -> (
    u64,
    (Seq<char>, (Seq<u8>, Seq<StoredTab>)),
) {
    (space.id.0, (space.name, (space.directory, space.tabs)))
}

impl Stored for PersistedSpace {
    open spec fn form(value: StoredSpace) -> Seq<u8> {
        SpaceForm::form(space_fields(value))
    }

    open spec fn refusal(value: StoredSpace) -> Option<Corruption> {
        SpaceForm::refusal(space_fields(value))
    }

    open spec fn parse(input: Seq<u8>) -> Read<StoredSpace> {
        match SpaceForm::parse(input) {
            Err(error) => Err(error),
            Ok(((id, (name, (directory, tabs))), rest)) => Ok(
                (StoredSpace { id: SpaceId(id), name, directory, tabs }, rest),
            ),
        }
    }

    open spec fn readable(value: StoredSpace) -> bool {
        SpaceForm::readable(space_fields(value))
    }

    proof fn round_trip(value: StoredSpace, rest: Seq<u8>) {
        SpaceForm::round_trip(space_fields(value), rest);
    }

    fn put(&self, output: &mut Vec<u8>) -> (result: Result<(), Corruption>) {
        let _ = Stored::put(&self.id.0, output);
        if let Err(error) = Stored::put(&self.name, output) {
            return Err(error);
        }
        if let Err(error) = Stored::put(&self.directory, output) {
            return Err(error);
        }
        if let Err(error) = put_list(&self.tabs, output) {
            return Err(error);
        }
        proof {
            assert(output@ =~= old(output)@ + Self::form(self@));
        }
        Ok(())
    }

    fn get(decoder: &mut Decoder<'_>) -> (result: Result<PersistedSpace, Corruption>) {
        match SpaceForm::get(decoder) {
            Err(error) => Err(error),
            Ok((id, (name, (directory, tabs)))) => Ok(
                PersistedSpace { id: SpaceId(id), name, directory, tabs: tabs.0 },
            ),
        }
    }
}

pub type LayoutForm = (u64, Items<PersistedSpace>);

impl Stored for PersistedCoreLayout {
    open spec fn form(value: StoredHierarchy) -> Seq<u8> {
        LayoutForm::form((value.next_id, value.spaces))
    }

    open spec fn refusal(value: StoredHierarchy) -> Option<Corruption> {
        LayoutForm::refusal((value.next_id, value.spaces))
    }

    open spec fn parse(input: Seq<u8>) -> Read<StoredHierarchy> {
        match LayoutForm::parse(input) {
            Err(error) => Err(error),
            Ok(((next_id, spaces), rest)) => Ok((StoredHierarchy { next_id, spaces }, rest)),
        }
    }

    open spec fn readable(value: StoredHierarchy) -> bool {
        LayoutForm::readable((value.next_id, value.spaces))
    }

    proof fn round_trip(value: StoredHierarchy, rest: Seq<u8>) {
        LayoutForm::round_trip((value.next_id, value.spaces), rest);
    }

    fn put(&self, output: &mut Vec<u8>) -> (result: Result<(), Corruption>) {
        let _ = Stored::put(&self.next_id, output);
        if let Err(error) = put_list(&self.spaces, output) {
            return Err(error);
        }
        proof {
            assert(output@ =~= old(output)@ + Self::form(self@));
        }
        Ok(())
    }

    fn get(decoder: &mut Decoder<'_>) -> (result: Result<PersistedCoreLayout, Corruption>) {
        match LayoutForm::get(decoder) {
            Err(error) => Err(error),
            Ok((next_id, spaces)) => Ok(PersistedCoreLayout { next_id, spaces: spaces.0 }),
        }
    }
}

} // verus!
