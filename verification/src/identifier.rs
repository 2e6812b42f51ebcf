//! Context identifiers: 128-bit UUIDs and their text forms.

use vstd::prelude::*;
use vstd::arithmetic::power::pow;

verus! {

/// The lower-case hexadecimal digit of a value below 16.
pub open spec fn hex_digit(value: int) -> char {
    seq!['0', '1', '2', '3', '4', '5', '6', '7', '8', '9', 'a', 'b', 'c', 'd', 'e', 'f'][value]
}

/// The hexadecimal digit of `id` at `position`, counted from the most
/// significant of its 32 digits.
pub open spec fn digit_at(id: u128, position: int) -> int {
    (id as int / pow(16, (31 - position) as nat)) % 16
}

/// How many of the 32 digits stand before place `place` of the hyphenated
/// form.
pub open spec fn digits_before(place: int) -> int {
    if place < 8 {
        place
    } else if place < 13 {
        place - 1
    } else if place < 18 {
        place - 2
    } else if place < 23 {
        place - 3
    } else {
        place - 4
    }
}

/// The hyphenated form of a UUID: its 32 lower-case hexadecimal digits, most
/// significant first, in groups of 8, 4, 4, 4 and 12 with a hyphen between
/// the groups.
pub open spec fn hyphenated_text(id: u128) -> Seq<char> {
    Seq::new(
        36,
        |place: int|
            if place == 8 || place == 13 || place == 18 || place == 23 {
                '-'
            } else {
                hex_digit(digit_at(id, digits_before(place)))
            },
    )
}

/// The value of the UUID that `text` denotes, if it denotes one.
pub uninterp spec fn parsed_uuid(text: Seq<char>) -> Option<u128>;

/// Formats a UUID with `uuid::Uuid::hyphenated`. The crate writes the
/// big-endian bytes of the value as lower-case hexadecimal digits and puts a
/// hyphen after the 8th, 12th, 16th and 20th digit.
#[verifier::external_body]
pub(crate) fn hyphenated(id: u128) -> (text: String)
    ensures
        text@ == hyphenated_text(id),
{
    uuid::Uuid::from_u128(id).hyphenated().to_string()
}

/// Parses a UUID with `uuid::Uuid::parse_str`, which accepts the simple,
/// hyphenated, URN and braced forms. The result depends on the text alone.
#[verifier::external_body]
pub(crate) fn parse_uuid(text: &str) -> (id: Option<u128>)
    ensures
        id == parsed_uuid(text@),
{
    match uuid::Uuid::parse_str(text) {
        Ok(parsed) => Some(parsed.as_u128()),
        Err(_) => None,
    }
}

/// The hyphenated form of a UUID.
pub fn hyphenated_of(id: u128) -> (text: String)
    ensures
        text@ == hyphenated_text(id),
{
    hyphenated(id)
}

/// The value of the UUID that `text` denotes, in any of the usual forms.
pub fn uuid_of_text(text: &str) -> (id: Option<u128>)
    ensures
        id == parsed_uuid(text@),
{
    parse_uuid(text)
}

} // verus!
