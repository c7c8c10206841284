//! Text built and inspected one character at a time.

use vstd::arithmetic::power::{lemma_pow0, pow};
use vstd::prelude::*;
use vstd::string::*;
use vstd::utf8::{decode_utf8, valid_utf8};

verus! {

/// `String::push` appends one character.
pub assume_specification[ String::push ](string: &mut String, character: char)
    ensures
        final(string)@ == old(string)@.push(character),
;

/// `std::str::from_utf8` accepts exactly the byte strings that are valid UTF-8,
/// and gives the text that they spell.
#[verifier::external_body]
pub(crate) fn utf8_text(bytes: &[u8]) -> (text: Option<String>)
    ensures
        match text {
            Some(text) => valid_utf8(bytes@) && text@ == decode_utf8(bytes@),
            None => !valid_utf8(bytes@),
        },
{
    match std::str::from_utf8(bytes) {
        Ok(text) => Some(String::from(text)),
        Err(_) => None,
    }
}

/// The characters that Unicode gives the property `White_Space`.
pub open spec fn is_space(character: char) -> bool {
    ||| '\u{9}' <= character <= '\u{d}'
    ||| character == '\u{20}'
    ||| character == '\u{85}'
    ||| character == '\u{a0}'
    ||| character == '\u{1680}'
    ||| '\u{2000}' <= character <= '\u{200a}'
    ||| '\u{2028}' <= character <= '\u{2029}'
    ||| character == '\u{202f}'
    ||| character == '\u{205f}'
    ||| character == '\u{3000}'
}

/// Whether `chars` holds nothing but white space.
pub open spec fn is_blank(chars: Seq<char>) -> bool {
    forall|i: int| 0 <= i < chars.len() ==> is_space(#[trigger] chars[i])
}

/// The decimal digits of `value`, most significant first.
pub open spec fn decimal_chars(value: nat) -> Seq<char>
    decreases value,
{
    if value < 10 {
        seq![(48 + value) as char]
    } else {
        decimal_chars(value / 10).push((48 + value % 10) as char)
    }
}

pub fn space_character(character: char) -> (found: bool)
    ensures
        found == is_space(character),
{
    ('\u{9}' <= character && character <= '\u{d}') || character == '\u{20}' || character == '\u{85}'
        || character == '\u{a0}' || character == '\u{1680}' || ('\u{2000}' <= character
        && character <= '\u{200a}') || ('\u{2028}' <= character && character <= '\u{2029}')
        || character == '\u{202f}' || character == '\u{205f}' || character == '\u{3000}'
}

/// The characters of `text`, in order.
pub fn characters(text: &str) -> (chars: Vec<char>)
    ensures
        chars@ == text@,
{
    let mut chars: Vec<char> = Vec::new();
    for character in iter: text.chars()
        invariant
            chars@ == iter.seq().take(iter.index() as int),
            iter.seq() == text@,
    {
        chars.push(character);
    }
    proof {
        assert(text@.take(text@.len() as int) =~= text@);
    }
    chars
}

/// The text made of `chars`.
pub fn text_of(chars: &[char]) -> (text: String)
    ensures
        text@ == chars@,
{
    let mut text = String::new();
    let mut index: usize = 0;
    while index < chars.len()
        invariant
            index <= chars@.len(),
            text@ == chars@.take(index as int),
        decreases chars@.len() - index,
    {
        text.push(chars[index]);
        index += 1;
        proof {
            assert(chars@.take(index as int) =~= chars@.take(index - 1).push(chars@[index - 1]));
        }
    }
    proof {
        assert(chars@.take(chars@.len() as int) =~= chars@);
    }
    text
}

/// Whether `text` is empty but for white space.
pub fn blank(text: &str) -> (result: bool)
    ensures
        result == is_blank(text@),
{
    let chars = characters(text);
    let mut index: usize = 0;
    while index < chars.len()
        invariant
            index <= chars@.len(),
            forall|i: int| 0 <= i < index ==> is_space(#[trigger] chars@[i]),
            chars@ == text@,
        decreases chars@.len() - index,
    {
        if !space_character(chars[index]) {
            return false;
        }
        index += 1;
    }
    true
}

/// `value` in decimal.
pub fn decimal(value: u64) -> (text: String)
    ensures
        text@ == decimal_chars(value as nat),
    decreases value,
{
    if value < 10 {
        let mut text = String::new();
        text.push((48 + value as u8) as char);
        proof {
            assert(text@ =~= seq![(48 + value) as char]);
        }
        text
    } else {
        let mut text = decimal(value / 10);
        text.push((48 + (value % 10) as u8) as char);
        text
    }
}

/// `chars` without the white space at both ends.
pub open spec fn trimmed(chars: Seq<char>) -> Seq<char>
    decreases chars.len(),
{
    if chars.len() == 0 {
        chars
    } else if is_space(chars[0]) {
        trimmed(chars.skip(1))
    } else if is_space(chars.last()) {
        trimmed(chars.drop_last())
    } else {
        chars
    }
}

/// `chars` without the white space at both ends, as a text.
pub fn trim(chars: &[char]) -> (text: String)
    ensures
        text@ == trimmed(chars@),
{
    let mut start: usize = 0;
    let mut end: usize = chars.len();
    proof {
        assert(chars@.subrange(0, end as int) =~= chars@);
    }
    while start < end && space_character(chars[start])
        invariant
            start <= end == chars@.len(),
            trimmed(chars@.subrange(start as int, end as int)) == trimmed(chars@),
        decreases end - start,
    {
        proof {
            assert(chars@.subrange(start as int, end as int).skip(1) =~= chars@.subrange(
                start + 1,
                end as int,
            ));
        }
        start += 1;
    }
    while start < end && space_character(chars[end - 1])
        invariant
            start <= end <= chars@.len(),
            start < end ==> !is_space(chars@[start as int]),
            trimmed(chars@.subrange(start as int, end as int)) == trimmed(chars@),
        decreases end - start,
    {
        proof {
            let part = chars@.subrange(start as int, end as int);
            assert(part.drop_last() =~= chars@.subrange(start as int, end - 1));
            assert(part[0] == chars@[start as int]);
            assert(part.last() == chars@[end - 1]);
        }
        end -= 1;
    }
    let (head, _) = chars.split_at(end);
    proof {
        assert(head@.skip(start as int) =~= chars@.subrange(start as int, end as int));
        let part = chars@.subrange(start as int, end as int);
        if start < end {
            assert(part[0] == chars@[start as int]);
            assert(part.last() == chars@[end - 1]);
        }
    }
    text_from(head, start)
}

/// The text that `std::string::String::from_utf8_lossy` reads in `bytes`.
pub uninterp spec fn utf8_lossy(bytes: Seq<u8>) -> Seq<char>;

/// `String::from_utf8_lossy`: the text that the bytes spell, where they are
/// valid UTF-8, and one with replacement characters where they are not.
#[verifier::external_body]
pub(crate) fn lossy_text(bytes: &[u8]) -> (text: String)
    ensures
        text@ == utf8_lossy(bytes@),
        valid_utf8(bytes@) ==> text@ == decode_utf8(bytes@),
{
    String::from_utf8_lossy(bytes).into_owned()
}

/// The characters that Unicode calls control characters.
pub open spec fn is_control(character: char) -> bool {
    character <= '\u{1f}' || '\u{7f}' <= character <= '\u{9f}'
}

pub fn control_character(character: char) -> (found: bool)
    ensures
        found == is_control(character),
{
    character <= '\u{1f}' || ('\u{7f}' <= character && character <= '\u{9f}')
}

/// The hexadecimal digit of `value`.
pub open spec fn hex_digit(value: nat) -> char {
    if value < 10 {
        (48 + value) as char
    } else {
        (87 + value) as char
    }
}

/// The last `width` hexadecimal digits of `value`, most significant first.
pub open spec fn hex_chars(value: nat, width: nat) -> Seq<char>
    decreases width,
{
    if width == 0 {
        Seq::empty()
    } else {
        hex_chars(value / 16, (width - 1) as nat).push(hex_digit(value % 16))
    }
}

pub fn hex_digit_of(value: u8) -> (digit: char)
    requires
        value < 16,
    ensures
        digit == hex_digit(value as nat),
{
    if value < 10 {
        (48 + value) as char
    } else {
        (87 + value) as char
    }
}

/// The last `width` hexadecimal digits of `value`.
pub fn hex(value: u64, width: usize) -> (text: String)
    ensures
        text@ == hex_chars(value as nat, width as nat),
    decreases width,
{
    if width == 0 {
        let text = String::new();
        proof {
            assert(text@ =~= Seq::empty());
        }
        text
    } else {
        let mut text = hex(value / 16, width - 1);
        text.push(hex_digit_of((value % 16) as u8));
        text
    }
}

/// The text made of `chars` from `start` on.
pub fn text_from(chars: &[char], start: usize) -> (text: String)
    requires
        start <= chars@.len(),
    ensures
        text@ == chars@.skip(start as int),
{
    let (_, rest) = chars.split_at(start);
    proof {
        assert(rest@ =~= chars@.skip(start as int));
    }
    text_of(rest)
}

/// What follows `prefix` in `text`, where it begins with it.
pub open spec fn after_prefix(text: Seq<char>, prefix: Seq<char>) -> Option<Seq<char>> {
    if prefix.is_prefix_of(text) {
        Some(text.skip(prefix.len() as int))
    } else {
        None
    }
}

/// What follows `prefix` in `text`, where it begins with it.
pub fn strip_prefix(text: &str, prefix: &str) -> (rest: Option<String>)
    ensures
        match after_prefix(text@, prefix@) {
            Some(chars) => rest is Some && rest->0@ == chars,
            None => rest is None,
        },
{
    let chars = characters(text);
    let expected = characters(prefix);
    if expected.len() > chars.len() {
        return None;
    }
    let mut index: usize = 0;
    while index < expected.len()
        invariant
            index <= expected@.len() <= chars@.len(),
            chars@ == text@,
            expected@ == prefix@,
            forall|i: int| 0 <= i < index ==> chars@[i] == expected@[i],
        decreases expected@.len() - index,
    {
        if chars[index] != expected[index] {
            proof {
                assert(text@.subrange(0, prefix@.len() as int)[index as int] == text@[index as int]);
            }
            return None;
        }
        index += 1;
    }
    proof {
        assert(text@.subrange(0, prefix@.len() as int) =~= prefix@);
    }
    Some(text_from(chars.as_slice(), expected.len()))
}

/// Whether `part` stands in `chars` from `start` on.
pub open spec fn stands_at(chars: Seq<char>, part: Seq<char>, start: int) -> bool {
    0 <= start <= chars.len() - part.len() && chars.subrange(start, start + part.len()) == part
}

/// Whether `part` stands in `chars` anywhere.
pub open spec fn contains_chars(chars: Seq<char>, part: Seq<char>) -> bool {
    exists|start: int| #[trigger] stands_at(chars, part, start)
}

fn matches_at(chars: &Vec<char>, part: &Vec<char>, start: usize) -> (result: bool)
    requires
        start + part@.len() <= chars@.len(),
    ensures
        result == stands_at(chars@, part@, start as int),
{
    let length = chars.len();
    let mut index: usize = 0;
    while index < part.len()
        invariant
            index <= part@.len(),
            start + part@.len() <= chars@.len() == length,
            forall|i: int| 0 <= i < index ==> chars@[start + i] == part@[i],
        decreases part@.len() - index,
    {
        if chars[start + index] != part[index] {
            proof {
                assert(chars@.subrange(start as int, start + part@.len())[index as int]
                    == chars@[start + index]);
            }
            return false;
        }
        index += 1;
    }
    proof {
        assert(chars@.subrange(start as int, start + part@.len()) =~= part@);
    }
    true
}

/// Whether `part` stands in `text` anywhere.
pub fn contains_text(text: &str, part: &str) -> (found: bool)
    ensures
        found == contains_chars(text@, part@),
{
    let chars = characters(text);
    let wanted = characters(part);
    if wanted.len() > chars.len() {
        return false;
    }
    let last = chars.len() - wanted.len();
    let mut start: usize = 0;
    while start <= last
        invariant
            start <= last + 1,
            last == chars@.len() - wanted@.len(),
            chars@ == text@,
            wanted@ == part@,
            chars@.len() <= usize::MAX,
            forall|i: int| 0 <= i < start ==> !#[trigger] stands_at(text@, part@, i),
        decreases last + 1 - start,
    {
        if matches_at(&chars, &wanted, start) {
            return true;
        }
        if start == last {
            return false;
        }
        start += 1;
    }
    false
}

/// Whether `text` begins with `prefix`.
pub fn begins_with(text: &str, prefix: &str) -> (result: bool)
    ensures
        result == prefix@.is_prefix_of(text@),
{
    let chars = characters(text);
    let wanted = characters(prefix);
    if wanted.len() > chars.len() {
        return false;
    }
    let result = matches_at(&chars, &wanted, 0);
    proof {
        assert(text@.subrange(0, prefix@.len() as int) =~= text@.take(prefix@.len() as int));
    }
    result
}

/// What stands before `suffix` in `chars`, where it ends with it.
pub open spec fn before_suffix(chars: Seq<char>, suffix: Seq<char>) -> Option<Seq<char>> {
    if stands_at(chars, suffix, chars.len() - suffix.len()) {
        Some(chars.take(chars.len() - suffix.len()))
    } else {
        None
    }
}

/// What stands before `suffix` in `text`, where it ends with it.
pub fn strip_suffix(text: &str, suffix: &str) -> (rest: Option<String>)
    ensures
        match before_suffix(text@, suffix@) {
            Some(chars) => rest is Some && rest->0@ == chars,
            None => rest is None,
        },
{
    let chars = characters(text);
    let wanted = characters(suffix);
    if wanted.len() > chars.len() {
        return None;
    }
    let end = chars.len() - wanted.len();
    if matches_at(&chars, &wanted, end) {
        let (head, _) = chars.as_slice().split_at(end);
        proof {
            assert(head@ =~= text@.take(end as int));
        }
        Some(text_of(head))
    } else {
        None
    }
}

/// What `str::to_lowercase` makes of a text.
pub uninterp spec fn lowercase(text: Seq<char>) -> Seq<char>;

/// `str::to_lowercase`, whose result depends on the text alone.
#[verifier::external_body]
pub(crate) fn lowercase_text(text: &str) -> (lower: String)
    ensures
        lower@ == lowercase(text@),
{
    text.to_lowercase()
}

/// A line without a carriage return at its end.
pub open spec fn without_return(line: Seq<char>) -> Seq<char> {
    if line.len() > 0 && line.last() == '\r' {
        line.drop_last()
    } else {
        line
    }
}

/// The lines of `chars` that have ended, and the one that has not.
pub open spec fn line_parts(chars: Seq<char>) -> (Seq<Seq<char>>, Seq<char>)
    decreases chars.len(),
{
    if chars.len() == 0 {
        (Seq::empty(), Seq::empty())
    } else {
        let (done, current) = line_parts(chars.drop_last());
        if chars.last() == '\n' {
            (done.push(without_return(current)), Seq::empty())
        } else {
            (done, current.push(chars.last()))
        }
    }
}

/// The lines of `chars`; the end of the last may be missing.
pub open spec fn lines_of(chars: Seq<char>) -> Seq<Seq<char>> {
    let (done, current) = line_parts(chars);
    if current.len() == 0 {
        done
    } else {
        done.push(current)
    }
}

pub open spec fn char_lines(lines: Seq<Vec<char>>) -> Seq<Seq<char>> {
    Seq::new(lines.len(), |i: int| lines[i]@)
}

/// The lines of `text`.
pub fn lines(text: &str) -> (lines: Vec<Vec<char>>)
    ensures
        char_lines(lines@) == lines_of(text@),
{
    let chars = characters(text);
    let mut done: Vec<Vec<char>> = Vec::new();
    let mut current: Vec<char> = Vec::new();
    let mut index: usize = 0;
    proof {
        assert(char_lines(done@) =~= Seq::empty());
    }
    while index < chars.len()
        invariant
            index <= chars@.len(),
            line_parts(chars@.take(index as int)) == (char_lines(done@), current@),
        decreases chars@.len() - index,
    {
        let ghost before = done@;
        proof {
            assert(chars@.take(index + 1).drop_last() =~= chars@.take(index as int));
        }
        let character = chars[index];
        if character == '\n' {
            if current.len() > 0 && current[current.len() - 1] == '\r' {
                let _ = current.pop();
            }
            let mut line: Vec<char> = Vec::new();
            std::mem::swap(&mut line, &mut current);
            let ghost ended = line@;
            done.push(line);
            proof {
                assert(char_lines(done@) =~= char_lines(before).push(ended));
                assert(current@ =~= Seq::empty());
            }
        } else {
            current.push(character);
        }
        index += 1;
    }
    proof {
        assert(chars@.take(index as int) =~= chars@);
    }
    if current.len() > 0 {
        let ghost before = done@;
        let ghost last = current@;
        done.push(current);
        proof {
            assert(char_lines(done@) =~= char_lines(before).push(last));
        }
    }
    done
}

pub fn is_text(text: &str, other: &str) -> (same: bool)
    ensures
        same == (text@ == other@),
{
    text.to_owned() == other.to_owned()
}

/// An ASCII letter as a small letter, any other character as it is.
pub open spec fn folded_char(character: char) -> char {
    if 'A' <= character <= 'Z' {
        (character as u32 + 32) as char
    } else {
        character
    }
}

pub open spec fn folded(chars: Seq<char>) -> Seq<char> {
    chars.map_values(|character: char| folded_char(character))
}

pub fn fold_char(character: char) -> (small: char)
    ensures
        small == folded_char(character),
{
    if 'A' <= character && character <= 'Z' {
        ((character as u8) + 32) as char
    } else {
        character
    }
}

/// `text` with small letters for the capital letters of ASCII.
pub fn fold(text: &str) -> (small: Vec<char>)
    ensures
        small@ == folded(text@),
{
    let chars = characters(text);
    let mut small: Vec<char> = Vec::new();
    let mut index: usize = 0;
    while index < chars.len()
        invariant
            index <= chars@.len(),
            small@ == folded(chars@.take(index as int)),
        decreases chars@.len() - index,
    {
        proof {
            assert(chars@.take(index + 1) =~= chars@.take(index as int).push(chars@[index as int]));
        }
        small.push(fold_char(chars[index]));
        index += 1;
        proof {
            assert(small@ =~= folded(chars@.take(index as int)));
        }
    }
    proof {
        assert(chars@.take(index as int) =~= chars@);
    }
    small
}

/// Whether two texts are the same but for the case of the letters of ASCII.
pub fn same_ignoring_case(left: &str, right: &str) -> (same: bool)
    ensures
        same == (folded(left@) == folded(right@)),
{
    let small = fold(left);
    let other = fold(right);
    if small.len() != other.len() {
        return false;
    }
    let mut index: usize = 0;
    while index < small.len()
        invariant
            small@ == folded(left@),
            other@ == folded(right@),
            index <= small@.len() == other@.len(),
            small@.take(index as int) == other@.take(index as int),
        decreases small@.len() - index,
    {
        if small[index] != other[index] {
            proof {
                assert(small@[index as int] != other@[index as int]);
            }
            return false;
        }
        index += 1;
        proof {
            assert(small@.take(index as int) =~= small@.take(index - 1).push(small@[index - 1]));
            assert(other@.take(index as int) =~= other@.take(index - 1).push(other@[index - 1]));
        }
    }
    proof {
        assert(small@.take(index as int) =~= small@);
        assert(other@.take(index as int) =~= other@);
    }
    true
}

/// A part that stands between two others is found, and only what stands so.
pub proof fn law_parts_are_found(before: Seq<char>, part: Seq<char>, after: Seq<char>)
    ensures
        contains_chars(before + part + after, part),
{
    let chars = before + part + after;
    assert(chars.subrange(before.len() as int, (before.len() + part.len()) as int) =~= part);
    assert(stands_at(chars, part, before.len() as int));
}

/// What is found stands between two others.
pub proof fn law_found_parts_stand_there(chars: Seq<char>, part: Seq<char>)
    requires
        contains_chars(chars, part),
    ensures
        exists|before: Seq<char>, after: Seq<char>| chars == #[trigger] (before + part + after),
{
    let start = choose|start: int| #[trigger] stands_at(chars, part, start);
    let before = chars.take(start);
    let after = chars.skip(start + part.len());
    assert(chars =~= before + part + after) by {
        assert(chars.subrange(start, start + part.len()) == part);
        assert forall|i: int| 0 <= i < chars.len() implies chars[i] == (before + part + after)[i] by {
            if start <= i < start + part.len() {
                assert(chars.subrange(start, start + part.len())[i - start] == chars[i]);
            }
        }
    }
}

/// What a line comes to where it ends in a newline: the carriage return before it
/// does not count.
proof fn lemma_unbroken(text: Seq<char>)
    requires
        !text.contains('\n'),
    ensures
        line_parts(text) == (Seq::<Seq<char>>::empty(), text),
    decreases text.len(),
{
    if text.len() > 0 {
        let rest = text.drop_last();
        assert forall|i: int| 0 <= i < rest.len() implies rest[i] != '\n' by {
            assert(text[i] == rest[i]);
            assert(text.contains(text[i]));
        }
        lemma_unbroken(rest);
        assert(text[text.len() - 1] == text.last());
        assert(text.contains(text.last()));
        assert(rest.push(text.last()) =~= text);
    }
}

proof fn lemma_line_parts(text: Seq<char>, rest: Seq<char>)
    requires
        !text.contains('\n'),
    ensures
        line_parts(text + seq!['\n'] + rest).0 == seq![without_return(text)] + line_parts(rest).0,
        line_parts(text + seq!['\n'] + rest).1 == line_parts(rest).1,
    decreases rest.len(),
{
    let all = text + seq!['\n'] + rest;
    if rest.len() == 0 {
        lemma_unbroken(text);
        assert(all.drop_last() =~= text);
        assert(all.last() == '\n');
        assert(line_parts(all).0 =~= seq![without_return(text)]);
        assert(seq![without_return(text)] + line_parts(rest).0 =~= seq![without_return(text)]);
    } else {
        lemma_line_parts(text, rest.drop_last());
        assert(all.drop_last() =~= text + seq!['\n'] + rest.drop_last());
        assert(all.last() == rest.last());
        assert(line_parts(all).0 =~= seq![without_return(text)] + line_parts(rest).0);
    }
}

/// A text has a line for each newline, and one more where something follows the
/// last.
pub proof fn law_lines_end_at_newlines(text: Seq<char>, rest: Seq<char>)
    requires
        !text.contains('\n'),
    ensures
        lines_of(text + seq!['\n'] + rest) == seq![without_return(text)] + lines_of(rest),
        text.len() > 0 ==> lines_of(text) == seq![text],
        lines_of(Seq::empty()) == Seq::<Seq<char>>::empty(),
        without_return(text.push('\r')) == text,
        text.len() == 0 || text.last() != '\r' ==> without_return(text) == text,
{
    lemma_line_parts(text, rest);
    lemma_unbroken(text);
    assert(lines_of(text + seq!['\n'] + rest) =~= seq![without_return(text)] + lines_of(rest));
    assert(Seq::<Seq<char>>::empty().push(text) =~= seq![text]);
    assert(text.push('\r').drop_last() =~= text);
}

/// Folding makes capital letters of ASCII small, and leaves all else.
pub proof fn law_folding_makes_letters_small(chars: Seq<char>)
    ensures
        folded(chars).len() == chars.len(),
        forall|i: int|
            0 <= i < chars.len() ==> {
                let small = #[trigger] folded(chars)[i];
                if 'A' <= chars[i] <= 'Z' {
                    small as int - 'a' as int == chars[i] as int - 'A' as int
                } else {
                    small == chars[i]
                }
            },
        folded(folded(chars)) == folded(chars),
{
    assert(folded(folded(chars)) =~= folded(chars));
}

/// Trimming takes white space off both ends and nothing else.
pub proof fn law_trimming_keeps_the_middle(before: Seq<char>, middle: Seq<char>, after: Seq<char>)
    requires
        is_blank(before),
        is_blank(after),
        middle.len() > 0,
        !is_space(middle[0]),
        !is_space(middle.last()),
    ensures
        trimmed(before + middle + after) == middle,
    decreases before.len() + after.len(),
{
    let all = before + middle + after;
    if before.len() > 0 {
        assert(is_space(before[0]));
        assert(all[0] == before[0]);
        assert(all.skip(1) =~= before.skip(1) + middle + after);
        assert(is_blank(before.skip(1))) by {
            assert forall|i: int| 0 <= i < before.skip(1).len() implies is_space(
                #[trigger] before.skip(1)[i],
            ) by {
                assert(is_space(before[i + 1]));
            }
        }
        law_trimming_keeps_the_middle(before.skip(1), middle, after);
    } else if after.len() > 0 {
        assert(is_space(after[after.len() - 1]));
        assert(all[0] == middle[0]);
        assert(all.last() == after.last());
        assert(all.drop_last() =~= before + middle + after.drop_last());
        assert(is_blank(after.drop_last())) by {
            assert forall|i: int| 0 <= i < after.drop_last().len() implies is_space(
                #[trigger] after.drop_last()[i],
            ) by {
                assert(is_space(after[i]));
            }
        }
        law_trimming_keeps_the_middle(before, middle, after.drop_last());
    } else {
        assert(all =~= middle);
    }
}

/// A text of white space alone is trimmed to nothing.
pub proof fn law_blank_text_is_trimmed_to_nothing(chars: Seq<char>)
    requires
        is_blank(chars),
    ensures
        trimmed(chars).len() == 0,
    decreases chars.len(),
{
    if chars.len() > 0 {
        assert(is_space(chars[0]));
        assert forall|i: int| 0 <= i < chars.skip(1).len() implies is_space(
            #[trigger] chars.skip(1)[i],
        ) by {
            assert(is_space(chars[i + 1]));
        }
        law_blank_text_is_trimmed_to_nothing(chars.skip(1));
    }
}

/// The number that digits spell, most significant first.
pub open spec fn spelled(digits: Seq<char>) -> nat
    decreases digits.len(),
{
    if digits.len() == 0 {
        0
    } else {
        10 * spelled(digits.drop_last()) + (digits.last() as nat - '0' as nat) as nat
    }
}

/// The digits of a number spell it, are digits, and begin with no zero but for
/// zero itself.
pub proof fn law_digits_spell_the_number(value: nat)
    ensures
        spelled(decimal_chars(value)) == value,
        forall|i: int|
            0 <= i < decimal_chars(value).len() ==> '0' <= #[trigger] decimal_chars(value)[i] <= '9',
        decimal_chars(value).len() > 0,
        value > 0 ==> decimal_chars(value)[0] != '0',
    decreases value,
{
    reveal_with_fuel(spelled, 2);
    if value >= 10 {
        law_digits_spell_the_number(value / 10);
        let digits = decimal_chars(value);
        assert(digits.drop_last() =~= decimal_chars(value / 10));
    }
}

/// What stands behind a prefix and before a suffix is what comes off, and whatever
/// comes off makes the text again.
pub proof fn law_prefixes_and_suffixes_come_off(head: Seq<char>, tail: Seq<char>, text: Seq<char>)
    ensures
        after_prefix(head + tail, head) == Some(tail),
        before_suffix(head + tail, tail) == Some(head),
        after_prefix(text, head) matches Some(rest) ==> text == head + rest,
        before_suffix(text, tail) matches Some(rest) ==> text == rest + tail,
{
    let whole = head + tail;
    assert(head.is_prefix_of(whole)) by {
        assert(whole.subrange(0, head.len() as int) =~= head);
    }
    assert(whole.skip(head.len() as int) =~= tail);
    assert(whole.subrange(head.len() as int, whole.len() as int) =~= tail);
    assert(whole.take(whole.len() - tail.len()) =~= head);
    if let Some(rest) = after_prefix(text, head) {
        assert(text =~= head + rest);
    }
    if let Some(rest) = before_suffix(text, tail) {
        assert(text.subrange(text.len() - tail.len(), text.len() as int) == tail);
        assert(text =~= rest + tail);
    }
}

/// The number that hexadecimal digits spell, most significant first.
pub open spec fn hex_spelled(digits: Seq<char>) -> nat
    decreases digits.len(),
{
    if digits.len() == 0 {
        0
    } else {
        16 * hex_spelled(digits.drop_last()) + if '0' <= digits.last() <= '9' {
            (digits.last() as nat - '0' as nat) as nat
        } else {
            (digits.last() as nat - 'a' as nat + 10) as nat
        }
    }
}

/// Hexadecimal digits are as many as asked for, are digits and small letters, and
/// spell the number as far as they go.
pub proof fn law_hexadecimal_digits_spell_the_number(value: nat, width: nat, index: int)
    ensures
        hex_chars(value, width).len() == width,
        0 <= index < width ==> '0' <= hex_chars(value, width)[index] <= '9' || 'a' <= hex_chars(
            value,
            width,
        )[index] <= 'f',
        value < pow(16, width) ==> hex_spelled(hex_chars(value, width)) == value,
    decreases width,
{
    if width == 0 {
        lemma_pow0(16);
    } else {
        lemma_pow1_step(width);
        law_hexadecimal_digits_spell_the_number(value / 16, (width - 1) as nat, index);
        let digits = hex_chars(value, width);
        assert(digits.drop_last() =~= hex_chars(value / 16, (width - 1) as nat));
        assert(digits.last() == hex_digit(value % 16));
        if value < pow(16, width) {
            assert(value / 16 < pow(16, (width - 1) as nat)) by (nonlinear_arith)
                requires
                    value < 16 * pow(16, (width - 1) as nat),
            ;
        }
    }
}

proof fn lemma_pow1_step(width: nat)
    requires
        width > 0,
    ensures
        pow(16, width) == 16 * pow(16, (width - 1) as nat),
{
    reveal(pow);
}

/// White space and control characters in ASCII are those that one expects.
pub proof fn law_ascii_white_space_and_controls(character: char)
    ensures
        (character as int) < 128 ==> (is_space(character) <==> 9 <= character as int <= 13
            || character as int == 32),
        is_control(character) <==> (character as int) < 32 || 127 <= character as int <= 159,
{
}

} // verus!
