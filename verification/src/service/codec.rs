//! Record payloads: the JSON that rooms and messages are stored as.
//!
//! A room's payload is its correlation id as `uuid` writes it; a message's payload is
//! the array of its text, its instant as `chrono` writes it, its author's name and its
//! read flag. `serde_json` writes and reads both.

use crate::service::time::Timestamp;
use vstd::prelude::*;

verus! {

/// Sixteen to the power of `n`.
pub open spec fn sixteen_to(n: nat) -> int
    decreases n,
{
    if n == 0 {
        1
    } else {
        16 * sixteen_to((n - 1) as nat)
    }
}

/// The hexadecimal digit of `id` at `place`, counted from the most significant, as a
/// lower-case character.
pub open spec fn hex_digit(id: u128, place: int) -> u8 {
    let digit = (id as int / sixteen_to((31 - place) as nat)) % 16;
    if digit < 10 {
        (48 + digit) as u8
    } else {
        (87 + digit) as u8
    }
}

/// The JSON of the correlation id with these 128 bits: between two quotation marks its
/// 32 hexadecimal digits in lower case, a hyphen behind the 8th, the 12th, the 16th and
/// the 20th.
pub open spec fn uuid_json(id: u128) -> Seq<u8> {
    Seq::new(
        38,
        |i: int|
            if i == 0 || i == 37 {
                34u8
            } else if i == 9 || i == 14 || i == 19 || i == 24 {
                45u8
            } else if i < 9 {
                hex_digit(id, i - 1)
            } else if i < 14 {
                hex_digit(id, i - 2)
            } else if i < 19 {
                hex_digit(id, i - 3)
            } else if i < 24 {
                hex_digit(id, i - 4)
            } else {
                hex_digit(id, i - 5)
            },
    )
}

/// The 128 bits of the correlation id that `serde_json::from_slice` reads from `bytes`;
/// `None` where it reports an error.
pub uninterp spec fn uuid_from_json(bytes: Seq<u8>) -> Option<u128>;

/// The JSON that `serde_json::to_vec` writes for the four fields of a message, the
/// instant given by its seconds and nanoseconds; `None` where `chrono` has no such
/// instant or `serde_json` reports an error.
pub uninterp spec fn message_json(
    text: Seq<char>,
    secs: i64,
    nanos: u32,
    author: Seq<char>,
    read: bool,
) -> Option<Seq<u8>>;

/// The four fields of a message that `serde_json::from_slice` reads from `bytes`, the
/// author as the text found there; `None` where it reports an error.
pub uninterp spec fn message_from_json(bytes: Seq<u8>) -> Option<
    (Seq<char>, i64, u32, Seq<char>, bool),
>;

/// `serde_json::to_vec` on a `uuid::Uuid`. In JSON a `Uuid` is written as the string of
/// its hyphenated lower-case form, which needs no escape, and is read from such a
/// string, so what was written reads back as the same id. Writing a string to a
/// vector does not fail.
#[verifier::external_body]
pub(crate) fn write_uuid(id: u128) -> (bytes: Vec<u8>)
    ensures
        bytes@ == uuid_json(id),
        uuid_from_json(bytes@) == Some(id),
{
    serde_json::to_vec(&uuid::Uuid::from_u128(id)).unwrap_or_default()
}

/// `serde_json::from_slice` for a `uuid::Uuid`, the id taken as its 128 bits. The
/// contract only gives what is read the name `uuid_from_json`: the same bytes always
/// read as the same id, or always as none.
#[verifier::external_body]
pub(crate) fn read_uuid(bytes: &Vec<u8>) -> (id: Option<u128>)
    ensures
        id == uuid_from_json(bytes@),
{
    serde_json::from_slice::<uuid::Uuid>(bytes).ok().map(|id| id.as_u128())
}

/// `serde_json::to_vec` on the tuple of a message's fields, the instant made by
/// `chrono::DateTime::from_timestamp`. A string is written with the escapes that
/// reading undoes, and an instant in RFC 3339 with as many digits of the second as it
/// has, so what was written reads back as the same four fields.
#[verifier::external_body]
pub(crate) fn write_message(text: &String, at: Timestamp, author: &str, read: bool) -> (bytes:
    Option<Vec<u8>>)
    ensures
        match bytes {
            Some(b) => message_json(text@, at.secs, at.nanos, author@, read) == Some(b@)
                && message_from_json(b@) == Some((text@, at.secs, at.nanos, author@, read)),
            None => message_json(text@, at.secs, at.nanos, author@, read) is None,
        },
{
    let at = chrono::DateTime::from_timestamp(at.secs, at.nanos)?;
    serde_json::to_vec(&(text, at, author, read)).ok()
}

/// `serde_json::from_slice` for the tuple of a message's fields, the instant read back
/// through `timestamp` and `timestamp_subsec_nanos`. The contract only gives what is
/// read the name `message_from_json`: the same bytes always read as the same fields, or
/// always as none.
#[verifier::external_body]
pub(crate) fn read_message(bytes: &Vec<u8>) -> (fields: Option<(String, Timestamp, String, bool)>)
    ensures
        match fields {
            Some(f) => message_from_json(bytes@) == Some(
                (f.0@, f.1.secs, f.1.nanos, f.2@, f.3),
            ),
            None => message_from_json(bytes@) is None,
        },
{
    match serde_json::from_slice::<(String, chrono::DateTime<chrono::Utc>, String, bool)>(bytes) {
        Ok((text, at, author, read)) => {
            let at = Timestamp { secs: at.timestamp(), nanos: at.timestamp_subsec_nanos() };
            Some((text, at, author, read))
        },
        Err(_) => None,
    }
}

} // verus!
