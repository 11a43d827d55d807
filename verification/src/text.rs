//! Records as they come from a command or a pipe: bytes that end in a
//! newline and hold UTF-8 text.

use vstd::prelude::*;
use vstd::utf8::decode_utf8;
use vstd::utf8::valid_utf8;

verus! {

/// The byte that ends a record.
pub const NEWLINE: u8 = 0x0A;

/// The record ends in a newline.
pub open spec fn ends_line(bytes: Seq<u8>) -> bool {
    bytes.len() > 0 && bytes.last() == NEWLINE
}

/// The record without its trailing newline, if it has one.
pub open spec fn strip_newline(bytes: Seq<u8>) -> Seq<u8> {
    if ends_line(bytes) {
        bytes.drop_last()
    } else {
        bytes
    }
}

/// The text of a record: its bytes without the trailing newline, decoded;
/// `None` where they are not valid UTF-8.
pub open spec fn record_text(bytes: Seq<u8>) -> Option<Seq<char>> {
    if valid_utf8(strip_newline(bytes)) {
        Some(decode_utf8(strip_newline(bytes)))
    } else {
        None
    }
}

/// Decodes bytes through `String::from_utf8`, which succeeds exactly on valid
/// UTF-8 and then returns the text that the bytes encode.
#[verifier::external_body]
fn decode(bytes: Vec<u8>) -> (text: Option<String>)
    ensures
        text.is_some() == valid_utf8(bytes@),
        text matches Some(s) ==> s@ == decode_utf8(bytes@),
{
    String::from_utf8(bytes).ok()
}

/// Strips the trailing newline of a record and decodes the rest.
pub fn read_record(bytes: Vec<u8>) -> (text: Option<String>)
    ensures
        text.is_some() == record_text(bytes@).is_some(),
        text matches Some(s) ==> record_text(bytes@) == Some(s@),
{
    let mut bytes = bytes;
    let n = bytes.len();
    if n > 0 && bytes[n - 1] == NEWLINE {
        bytes.pop();
    }
    decode(bytes)
}

} // verus!
