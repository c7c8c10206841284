//! Paths of systems that name files in units of sixteen bits: their bytes in a
//! snapshot and their form in a message.

use crate::bytes::{
    law_le_round_trip, le_bytes, le_value, lemma_byte_ranges, lemma_le_bytes_len, lemma_parse_le,
    lemma_parse_slice, parse_slice, put_le, put_slice, Decoder,
};
use crate::persistence::Corruption;
use crate::resident_core::wire::format::{parse_number, Parsed, WireError};
use crate::resident_core::wire::frame::MAX_MESSAGE_BYTES;
use vstd::prelude::*;

verus! {

/// The bytes of `units`, of each the less significant first.
pub open spec fn unit_bytes(units: Seq<u16>) -> Seq<u8>
    decreases units.len(),
{
    if units.len() == 0 {
        Seq::empty()
    } else {
        unit_bytes(units.drop_last()) + le_bytes(units.last() as nat, 2)
    }
}

/// The units that an even number of bytes spell.
pub open spec fn units_of(bytes: Seq<u8>) -> Seq<u16> {
    Seq::new(bytes.len() / 2, |i: int| le_value(bytes.subrange(2 * i, 2 * i + 2)) as u16)
}

/// Reading the bytes of a path gives the path, and there are two for each unit.
pub proof fn law_unit_bytes_round_trip(units: Seq<u16>)
    ensures
        unit_bytes(units).len() == 2 * units.len(),
        units_of(unit_bytes(units)) == units,
    decreases units.len(),
{
    if units.len() > 0 {
        let head = unit_bytes(units.drop_last());
        let bytes = unit_bytes(units);
        let last = units.len() - 1;
        law_unit_bytes_round_trip(units.drop_last());
        lemma_le_bytes_len(units.last() as nat, 2);
        lemma_byte_ranges();
        law_le_round_trip(units.last() as nat, 2);
        assert(bytes.subrange(2 * last, 2 * last + 2) =~= le_bytes(units.last() as nat, 2));
        assert forall|i: int| 0 <= i < last implies units_of(bytes)[i] == units[i] by {
            assert(bytes.subrange(2 * i, 2 * i + 2) =~= head.subrange(2 * i, 2 * i + 2));
            assert(units_of(head)[i] == units.drop_last()[i]);
        }
    }
    assert(units_of(unit_bytes(units)) =~= units);
}

/// The bytes of a path as a snapshot holds them.
pub fn encode_wide(units: &[u16]) -> (bytes: Vec<u8>)
    ensures
        bytes@ == unit_bytes(units@),
{
    let mut bytes: Vec<u8> = Vec::new();
    let mut index: usize = 0;
    proof {
        assert(bytes@ =~= unit_bytes(units@.take(0)));
    }
    while index < units.len()
        invariant
            index <= units@.len(),
            bytes@ == unit_bytes(units@.take(index as int)),
        decreases units@.len() - index,
    {
        put_le(&mut bytes, units[index] as u64, 2);
        index += 1;
        proof {
            assert(units@.take(index as int).drop_last() =~= units@.take(index - 1));
        }
    }
    proof {
        assert(units@.take(index as int) =~= units@);
    }
    bytes
}

fn read_units(bytes: &[u8]) -> (units: Vec<u16>)
    requires
        bytes@.len() % 2 == 0,
    ensures
        units@ == units_of(bytes@),
{
    let mut units: Vec<u16> = Vec::new();
    let mut decoder = Decoder::new(bytes);
    let count: usize = bytes.len() / 2;
    let mut index: usize = 0;
    proof {
        lemma_byte_ranges();
        assert(bytes@.skip(0) =~= bytes@);
    }
    while index < count
        invariant
            index <= count,
            bytes@.len() == 2 * count,
            units@.len() == index,
            decoder@ == bytes@.skip(2 * index),
            crate::bytes::byte_range(2) == 0x1_0000,
            forall|i: int| 0 <= i < index ==> #[trigger] units@[i] == units_of(bytes@)[i],
        decreases count - index,
    {
        let ghost rest = decoder@;
        if let Some(unit) = decoder.uint(2) {
            proof {
                assert(rest.take(2) =~= bytes@.subrange(2 * index, 2 * index + 2));
                assert(rest.skip(2) =~= bytes@.skip(2 * (index + 1)));
                assert(unit as u16 == units_of(bytes@)[index as int]);
            }
            units.push(unit as u16);
        }
        index += 1;
    }
    proof {
        assert(units@ =~= units_of(bytes@));
    }
    units
}

/// The path that a snapshot holds the bytes of.
pub fn decode_wide(bytes: &[u8]) -> (units: Result<Vec<u16>, Corruption>)
    ensures
        match units {
            Ok(units) => bytes@.len() % 2 == 0 && units@ == units_of(bytes@),
            Err(error) => bytes@.len() % 2 != 0 && error == Corruption::OddPath,
        },
{
    if bytes.len() % 2 == 0 {
        Ok(read_units(bytes))
    } else {
        Err(Corruption::OddPath)
    }
}

/// The form of a path in a message: its units behind their number.
pub open spec fn wide_form(units: Seq<u16>) -> Seq<u8> {
    le_bytes(units.len(), 4) + unit_bytes(units)
}

/// The path at the front of a message.
pub open spec fn parse_wide(input: Seq<u8>) -> Parsed<Seq<u16>> {
    match parse_number(input, 4) {
        Ok((count, rest)) => if count > MAX_MESSAGE_BYTES / 2 {
            Err(WireError::PathTooLong)
        } else {
            match parse_slice(rest, 2 * count) {
                Some((bytes, rest)) => Ok((units_of(bytes), rest)),
                None => Err(WireError::UnexpectedEnd),
            }
        },
        Err(error) => Err(error),
    }
}

/// Appends the form of a path.
pub fn put_wide(output: &mut Vec<u8>, units: &[u16]) -> (result: Result<(), WireError>)
    ensures
        if units@.len() <= u32::MAX {
            result is Ok && final(output)@ == old(output)@ + wide_form(units@)
        } else {
            result == Err::<(), WireError>(WireError::PathTooLong) && final(output)@ == old(
                output,
            )@
        },
{
    if units.len() > 0xffff_ffff {
        return Err(WireError::PathTooLong);
    }
    put_le(output, units.len() as u64, 4);
    let bytes = encode_wide(units);
    put_slice(output, bytes.as_slice());
    proof {
        assert(output@ =~= old(output)@ + wide_form(units@));
    }
    Ok(())
}

/// Reads a path.
pub fn get_wide(decoder: &mut Decoder<'_>) -> (result: Result<Vec<u16>, WireError>)
    ensures
        match parse_wide(old(decoder)@) {
            Ok((units, rest)) => result is Ok && result->Ok_0@ == units && final(decoder)@ == rest,
            Err(error) => result is Err && result->Err_0 == error,
        },
{
    match decoder.uint(4) {
        Some(count) => if count > MAX_MESSAGE_BYTES / 2 {
            Err(WireError::PathTooLong)
        } else {
            match decoder.slice(2 * count as usize) {
                Some(bytes) => Ok(read_units(bytes)),
                None => Err(WireError::UnexpectedEnd),
            }
        },
        None => Err(WireError::UnexpectedEnd),
    }
}

/// A path that fits into a message arrives as it was sent.
pub proof fn law_wide_paths_arrive(units: Seq<u16>, rest: Seq<u8>)
    requires
        units.len() <= MAX_MESSAGE_BYTES / 2,
    ensures
        parse_wide(wide_form(units) + rest) == Parsed::<Seq<u16>>::Ok((units, rest)),
{
    law_unit_bytes_round_trip(units);
    lemma_byte_ranges();
    lemma_parse_le(units.len(), 4, unit_bytes(units) + rest);
    lemma_parse_slice(unit_bytes(units), rest);
    assert(wide_form(units) + rest =~= le_bytes(units.len(), 4) + (unit_bytes(units) + rest));
}

} // verus!
