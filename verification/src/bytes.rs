//! Little-endian integers and length-delimited fields in byte strings.

use vstd::prelude::*;
use vstd::utf8::encode_utf8;

verus! {

/// How many values `width` bytes can take.
pub open spec fn byte_range(width: nat) -> nat
    decreases width,
{
    if width == 0 {
        1
    } else {
        256 * byte_range((width - 1) as nat)
    }
}

/// `value` in `width` bytes, least significant first.
pub open spec fn le_bytes(value: nat, width: nat) -> Seq<u8>
    decreases width,
{
    if width == 0 {
        Seq::empty()
    } else {
        seq![(value % 256) as u8] + le_bytes(value / 256, (width - 1) as nat)
    }
}

/// The number that `bytes` spell, least significant first.
pub open spec fn le_value(bytes: Seq<u8>) -> nat
    decreases bytes.len(),
{
    if bytes.len() == 0 {
        0
    } else {
        bytes[0] as nat + 256 * le_value(bytes.skip(1))
    }
}

pub proof fn lemma_byte_ranges()
    ensures
        byte_range(1) == 0x100,
        byte_range(2) == 0x1_0000,
        byte_range(4) == 0x1_0000_0000,
        byte_range(8) == 0x1_0000_0000_0000_0000,
{
    reveal_with_fuel(byte_range, 9);
}

pub proof fn lemma_le_bytes_len(value: nat, width: nat)
    ensures
        le_bytes(value, width).len() == width,
    decreases width,
{
    if width > 0 {
        lemma_le_bytes_len(value / 256, (width - 1) as nat);
    }
}

pub proof fn lemma_le_value_bound(bytes: Seq<u8>)
    ensures
        le_value(bytes) < byte_range(bytes.len()),
    decreases bytes.len(),
{
    if bytes.len() > 0 {
        lemma_le_value_bound(bytes.skip(1));
    }
}

/// Writing a number and reading it back gives the number.
pub proof fn law_le_round_trip(value: nat, width: nat)
    requires
        value < byte_range(width),
    ensures
        le_value(le_bytes(value, width)) == value,
    decreases width,
{
    if width > 0 {
        let bytes = le_bytes(value, width);
        law_le_round_trip(value / 256, (width - 1) as nat);
        assert(bytes.skip(1) =~= le_bytes(value / 256, (width - 1) as nat));
    }
}

/// Appends `value` in `width` bytes.
pub fn put_le(output: &mut Vec<u8>, value: u64, width: usize)
    ensures
        final(output)@ == old(output)@ + le_bytes(value as nat, width as nat),
{
    let mut left: u64 = value;
    let mut count: usize = 0;
    proof {
        assert(output@ + le_bytes(value as nat, width as nat) =~= old(output)@ + le_bytes(
            value as nat,
            width as nat,
        ));
    }
    while count < width
        invariant
            count <= width,
            output@ + le_bytes(left as nat, (width - count) as nat) == old(output)@ + le_bytes(
                value as nat,
                width as nat,
            ),
        decreases width - count,
    {
        let ghost before = output@;
        let ghost whole = left;
        output.push((left % 256) as u8);
        left = left / 256;
        count += 1;
        proof {
            assert(before + le_bytes(whole as nat, (width - count + 1) as nat) =~= output@
                + le_bytes(left as nat, (width - count) as nat));
        }
    }
    proof {
        assert(output@ + le_bytes(left as nat, 0) =~= output@);
    }
}

/// The number that up to eight bytes spell.
pub fn read_le(bytes: &[u8]) -> (value: u64)
    requires
        bytes@.len() <= 8,
    ensures
        value == le_value(bytes@),
{
    let mut value: u64 = 0;
    let mut index: usize = bytes.len();
    proof {
        assert(bytes@.skip(index as int) =~= Seq::empty());
    }
    while index > 0
        invariant
            index <= bytes@.len() <= 8,
            value == le_value(bytes@.skip(index as int)),
        decreases index,
    {
        proof {
            let rest = bytes@.skip(index as int);
            lemma_le_value_bound(rest);
            lemma_byte_ranges();
            reveal_with_fuel(byte_range, 9);
            assert(bytes@.skip(index - 1).skip(1) =~= rest);
            assert(value < 0x100_0000_0000_0000);
        }
        index -= 1;
        value = bytes[index] as u64 + 256 * value;
    }
    proof {
        assert(bytes@.skip(0) =~= bytes@);
    }
    value
}

/// Appends `bytes`.
pub fn put_slice(output: &mut Vec<u8>, bytes: &[u8])
    ensures
        final(output)@ == old(output)@ + bytes@,
{
    let mut index: usize = 0;
    proof {
        assert(bytes@.take(0) =~= Seq::empty());
        assert(output@ =~= old(output)@ + bytes@.take(0));
    }
    while index < bytes.len()
        invariant
            index <= bytes@.len(),
            output@ == old(output)@ + bytes@.take(index as int),
        decreases bytes@.len() - index,
    {
        output.push(bytes[index]);
        index += 1;
        proof {
            assert(bytes@.take(index as int) =~= bytes@.take(index - 1).push(bytes@[index - 1]));
            assert(output@ =~= old(output)@ + bytes@.take(index as int));
        }
    }
    proof {
        assert(bytes@.take(index as int) =~= bytes@);
    }
}

/// `bytes` as a vector of its own.
pub fn copied(bytes: &[u8]) -> (copy: Vec<u8>)
    ensures
        copy@ == bytes@,
{
    let mut copy: Vec<u8> = Vec::with_capacity(bytes.len());
    put_slice(&mut copy, bytes);
    proof {
        assert(copy@ =~= bytes@);
    }
    copy
}

/// Whether two byte strings are the same.
pub fn same_bytes(left: &[u8], right: &[u8]) -> (same: bool)
    ensures
        same == (left@ == right@),
{
    if left.len() != right.len() {
        return false;
    }
    let mut index: usize = 0;
    while index < left.len()
        invariant
            index <= left@.len(),
            left@.len() == right@.len(),
            forall|i: int| 0 <= i < index ==> left@[i] == right@[i],
        decreases left@.len() - index,
    {
        if left[index] != right[index] {
            return false;
        }
        index += 1;
    }
    proof {
        assert(left@ =~= right@);
    }
    true
}

/// The first `length` of `input` and what follows, where it is that long.
pub open spec fn parse_slice(input: Seq<u8>, length: nat) -> Option<(Seq<u8>, Seq<u8>)> {
    if length <= input.len() {
        Some((input.take(length as int), input.skip(length as int)))
    } else {
        None
    }
}

/// The number in the first `width` bytes of `input` and what follows.
pub open spec fn parse_le(input: Seq<u8>, width: nat) -> Option<(nat, Seq<u8>)> {
    match parse_slice(input, width) {
        Some((bytes, rest)) => Some((le_value(bytes), rest)),
        None => None,
    }
}

pub proof fn lemma_parse_slice(bytes: Seq<u8>, rest: Seq<u8>)
    ensures
        parse_slice(bytes + rest, bytes.len()) == Some((bytes, rest)),
{
    assert((bytes + rest).take(bytes.len() as int) =~= bytes);
    assert((bytes + rest).skip(bytes.len() as int) =~= rest);
}

pub proof fn lemma_parse_le(value: nat, width: nat, rest: Seq<u8>)
    requires
        value < byte_range(width),
    ensures
        parse_le(le_bytes(value, width) + rest, width) == Some((value, rest)),
{
    lemma_le_bytes_len(value, width);
    lemma_parse_slice(le_bytes(value, width), rest);
    law_le_round_trip(value, width);
}

/// The part of a byte string that is still to be read.
pub struct Decoder<'a> {
    rest: &'a [u8],
}

impl<'a> View for Decoder<'a> {
    type V = Seq<u8>;

    closed spec fn view(&self) -> Seq<u8> {
        self.rest@
    }
}

impl<'a> Decoder<'a> {
    pub fn new(bytes: &'a [u8]) -> (decoder: Self)
        ensures
            decoder@ == bytes@,
    {
        Decoder { rest: bytes }
    }

    pub fn is_finished(&self) -> (finished: bool)
        ensures
            finished == (self@.len() == 0),
    {
        self.rest.len() == 0
    }

    /// Reads the next `length` bytes.
    pub fn slice(&mut self, length: usize) -> (bytes: Option<&'a [u8]>)
        ensures
            match parse_slice(old(self)@, length as nat) {
                Some((taken, rest)) => bytes is Some && bytes->0@ == taken && final(self)@ == rest,
                None => bytes is None && final(self)@ == old(self)@,
            },
    {
        if length > self.rest.len() {
            return None;
        }
        let (taken, rest) = self.rest.split_at(length);
        proof {
            assert(taken@ =~= self@.take(length as int));
            assert(rest@ =~= self@.skip(length as int));
        }
        self.rest = rest;
        Some(taken)
    }

    /// Reads the next `width` bytes as a number.
    pub fn uint(&mut self, width: usize) -> (value: Option<u64>)
        requires
            width <= 8,
        ensures
            match parse_le(old(self)@, width as nat) {
                Some((number, rest)) => value == Some(number as u64) && number <= u64::MAX
                    && number < byte_range(width as nat) && final(self)@ == rest,
                None => value is None && final(self)@ == old(self)@,
            },
    {
        let ghost before = self@;
        match self.slice(width) {
            Some(bytes) => {
                proof {
                    lemma_le_value_bound(bytes@);
                }
                Some(read_le(bytes))
            },
            None => None,
        }
    }
}

/// A number in two bytes, the least significant first.
#[verifier::opaque]
pub open spec fn two(value: u16) -> Seq<u8> {
    seq![(value % 256) as u8, (value / 256) as u8]
}

/// A number in four bytes, the least significant first.
#[verifier::opaque]
pub open spec fn four(value: nat) -> Seq<u8> {
    seq![
        (value % 256) as u8,
        (value / 256 % 256) as u8,
        (value / 65536 % 256) as u8,
        (value / 16777216 % 256) as u8,
    ]
}

/// A number in eight bytes, the least significant first.
#[verifier::opaque]
pub open spec fn eight(value: u64) -> Seq<u8> {
    four((value % 4294967296) as nat) + four((value / 4294967296) as nat)
}

/// Bytes behind their count.
pub open spec fn counted(bytes: Seq<u8>) -> Seq<u8> {
    four(bytes.len()) + bytes
}

/// A text as bytes behind their count.
pub open spec fn worded(text: Seq<char>) -> Seq<u8> {
    counted(encode_utf8(text))
}

pub proof fn lemma_two(value: u16)
    ensures
        le_bytes(value as nat, 2) == two(value),
{
    reveal(two);
    reveal_with_fuel(le_bytes, 3);
    assert(le_bytes(value as nat, 2) =~= two(value));
}

pub proof fn lemma_four(value: nat)
    ensures
        le_bytes(value, 4) == four(value),
{
    reveal(four);
    reveal_with_fuel(le_bytes, 5);
    assert(value / 256 / 256 == value / 65536);
    assert(value / 256 / 256 / 256 == value / 16777216);
    assert(le_bytes(value, 4) =~= four(value));
}

pub proof fn lemma_eight(value: u64)
    ensures
        le_bytes(value as nat, 8) == eight(value),
{
    let whole = value as nat;
    let low = (value % 4294967296) as nat;
    let high = (value / 4294967296) as nat;
    reveal(four);
    reveal(eight);
    reveal_with_fuel(le_bytes, 9);
    assert(whole / 256 / 256 / 256 / 256 == high);
    lemma_four(high);
    assert(whole == high * 4294967296 + low);
    assert(whole % 256 == low % 256);
    assert(whole / 256 % 256 == low / 256 % 256);
    assert(whole / 65536 % 256 == low / 65536 % 256);
    assert(whole / 16777216 % 256 == low / 16777216 % 256);
    assert(whole / 256 / 256 == whole / 65536);
    assert(whole / 256 / 256 / 256 == whole / 16777216);
    assert(le_bytes(whole, 8) =~= le_bytes(whole, 4) + le_bytes(high, 4));
    lemma_four(whole);
    assert(four(whole) =~= four(low));
}

/// Bytes can be joined in any order of joining.
pub proof fn lemma_joined(first: Seq<u8>, second: Seq<u8>, third: Seq<u8>)
    ensures
        first + (second + third) == first + second + third,
{
    assert(first + (second + third) =~= first + second + third);
}

/// What is joined from the right is joined from the left.
pub proof fn lemma_joined_four(first: Seq<u8>, second: Seq<u8>, third: Seq<u8>, fourth: Seq<u8>)
    ensures
        first + (second + (third + fourth)) == first + second + third + fourth,
{
    lemma_joined(second, third, fourth);
    lemma_joined(first, second + third, fourth);
    lemma_joined(first, second, third);
}

/// What is joined from the right is joined from the left.
pub proof fn lemma_joined_six(
    first: Seq<u8>,
    second: Seq<u8>,
    third: Seq<u8>,
    fourth: Seq<u8>,
    fifth: Seq<u8>,
    sixth: Seq<u8>,
)
    ensures
        first + (second + (third + (fourth + (fifth + sixth)))) == first + second + third + fourth
            + fifth + sixth,
{
    lemma_joined_four(first, second, third, fourth + (fifth + sixth));
    lemma_joined_four(first + second + third, fourth, fifth, sixth);
    lemma_joined(first + second + third, fourth, fifth + sixth);
    lemma_joined(first + second + third + fourth, fifth, sixth);
}

} // verus!
