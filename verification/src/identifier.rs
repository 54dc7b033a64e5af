//! Identifiers in UUID form.
//!
//! A topic is an opaque string. A client may name any topic whose text the
//! `uuid` crate reads as a UUID; the topic is then that text, character for
//! character. The process names its own subscription by a UUID that it draws,
//! written in the hyphenated form: 32 lower-case hexadecimal digits in groups
//! of 8, 4, 4, 4 and 12 joined by hyphens.

use crate::message::ChatID;
use uuid::Uuid;
use vstd::arithmetic::power::pow;
use vstd::prelude::*;

verus! {

/// The 128-bit value that `Uuid::parse_str` reads from `text`, or `None` where
/// it rejects the text.
pub uninterp spec fn uuid_value(text: Seq<char>) -> Option<u128>;

/// The sixteen lower-case hexadecimal digits, by value.
pub open spec fn lower_hex() -> Seq<char> {
    seq!['0', '1', '2', '3', '4', '5', '6', '7', '8', '9', 'a', 'b', 'c', 'd', 'e', 'f']
}

/// The `k`-th hexadecimal digit of `value`, counted from the most significant
/// (`k` from 0 to 31).
pub open spec fn nibble(value: u128, k: int) -> int {
    (value as int / pow(16, (31 - k) as nat)) % 16
}

/// Whether position `i` of the hyphenated form holds a hyphen.
pub open spec fn is_hyphen_position(i: int) -> bool {
    i == 8 || i == 13 || i == 18 || i == 23
}

/// The number of hyphens in front of position `i` of the hyphenated form.
pub open spec fn hyphens_before(i: int) -> int {
    if i > 23 {
        4
    } else if i > 18 {
        3
    } else if i > 13 {
        2
    } else if i > 8 {
        1
    } else {
        0
    }
}

/// The hyphenated form of a 128-bit identifier: 36 characters, hyphens at
/// positions 8, 13, 18 and 23, and the 32 hexadecimal digits of `value` in
/// lower case, most significant first, at the others.
pub open spec fn hyphenated(value: u128) -> Seq<char> {
    Seq::new(
        36,
        |i: int|
            if is_hyphen_position(i) {
                '-'
            } else {
                lower_hex()[nibble(value, i - hyphens_before(i))]
            },
    )
}

/// Whether `value` carries the version and variant marks of a random
/// (version 4) UUID.
pub open spec fn is_random_uuid(value: u128) -> bool {
    nibble(value, 12) == 4 && 8 <= nibble(value, 16) < 12
}

/// Calls `Uuid::parse_str` and hands back the identifier as a 128-bit value
/// (`Uuid::as_u128`, the sixteen bytes most significant first).
///
/// Trusted: the result is what `uuid_value` names for the same text.
#[verifier::external_body]
pub(crate) fn parse_uuid(text: &str) -> (value: Option<u128>)
    ensures
        value == uuid_value(text@),
{
    match Uuid::parse_str(text) {
        Ok(id) => Some(id.as_u128()),
        Err(_) => None,
    }
}

/// Formats the identifier with the `Display` impl of `Uuid`, which writes the
/// lower-case hyphenated form.
///
/// Trusted: the text is `hyphenated(value)`.
#[verifier::external_body]
pub(crate) fn format_uuid(value: u128) -> (text: String)
    ensures
        text@ == hyphenated(value),
{
    Uuid::from_u128(value).to_string()
}

/// Draws a fresh identifier with `Uuid::new_v4`, which takes 128 bits from the
/// operating system's random source and overwrites the version and variant
/// bits. The call gives up only where the system has no random bytes to give.
///
/// Trusted: only those marks are known of the result.
#[verifier::external_body]
pub(crate) fn random_uuid() -> (value: u128)
    ensures
        is_random_uuid(value),
{
    Uuid::new_v4().as_u128()
}

/// Whether `topic` is the topic that a client names by `text`, which was
/// read as `parsed`: the text itself where it was read as a UUID, and none
/// where it was not.
pub open spec fn names(topic: Option<ChatID>, text: Seq<char>, parsed: Option<u128>) -> bool {
    match parsed {
        Some(_) => topic matches Some(chat_id) && chat_id@ == text,
        None => topic is None,
    }
}

/// The topic that a client names by `text`, which was read as `parsed`.
pub fn topic_of(text: String, parsed: Option<u128>) -> (topic: Option<ChatID>)
    ensures
        names(topic, text@, parsed),
{
    match parsed {
        Some(_) => Some(ChatID(text)),
        None => None,
    }
}

/// Reads `text` as a topic: `None` where it is no UUID, otherwise the topic
/// whose name is the text as it stands.
pub fn accepted_topic(text: String) -> (topic: Option<ChatID>)
    ensures
        names(topic, text@, uuid_value(text@)),
{
    let parsed = parse_uuid(text.as_str());
    topic_of(text, parsed)
}

} // verus!
