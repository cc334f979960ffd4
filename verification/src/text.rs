//! Records as text: decoding, and the line that is echoed above the bar.

use vstd::prelude::*;
use vstd::string::StringSliceAdditionalSpecFns;
use vstd::utf8::{decode_utf8, encode_utf8_decode_utf8, valid_utf8};

verus! {

/// The line feed, which ends the lines of the header.
pub const LINE_FEED: u8 = 10;

/// The carriage return, which ends each redrawing of the progress line.
pub const CARRIAGE_RETURN: u8 = 13;

/// Whether `byte` is neither a line feed nor a carriage return.
pub open spec fn is_line_content(byte: u8) -> bool {
    byte != LINE_FEED && byte != CARRIAGE_RETURN
}

/// `record` without its line feeds and carriage returns.
pub open spec fn without_line_breaks(record: Seq<u8>) -> Seq<u8> {
    record.filter(|byte: u8| is_line_content(byte))
}

/// Reads `bytes` as text with `std::str::from_utf8`.
///
/// Believed, not proved: the bytes are taken exactly where they are
/// well-formed UTF-8, and the text is then made of these very bytes.
#[verifier::external_body]
fn from_utf8(bytes: &[u8]) -> (text: Option<&str>)
    ensures
        text is Some <==> valid_utf8(bytes@),
        text matches Some(taken) ==> taken.spec_bytes() == bytes@,
{
    std::str::from_utf8(bytes).ok()
}

/// Decodes `bytes` as UTF-8. `None` where they are not well-formed.
pub fn decode(bytes: &[u8]) -> (text: Option<&str>)
    ensures
        text is Some <==> valid_utf8(bytes@),
        text matches Some(decoded) ==> decoded@ == decode_utf8(bytes@),
{
    let text = from_utf8(bytes);
    proof {
        if let Some(taken) = text {
            encode_utf8_decode_utf8(taken@);
        }
    }
    text
}

/// Copies `record` without its line feeds and carriage returns.
pub fn strip_line_breaks(record: &[u8]) -> (line: Vec<u8>)
    ensures
        line@ == without_line_breaks(record@),
{
    let mut line: Vec<u8> = Vec::new();
    let mut i: usize = 0;
    proof {
        reveal(Seq::filter);
        assert(record@.take(0).len() == 0);
    }
    while i < record.len()
        invariant
            i <= record.len(),
            line@ == without_line_breaks(record@.take(i as int)),
        decreases record.len() - i,
    {
        let byte = record[i];
        proof {
            reveal(Seq::filter);
            let longer = record@.take(i + 1);
            assert(longer.drop_last() == record@.take(i as int));
            assert(longer.last() == byte);
        }
        if byte != LINE_FEED && byte != CARRIAGE_RETURN {
            line.push(byte);
        }
        i += 1;
    }
    assert(record@.take(i as int) == record@);
    line
}

} // verus!
