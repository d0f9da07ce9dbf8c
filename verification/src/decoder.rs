//! Decoder for the store's legacy binary text blobs: a serialized object
//! graph in which the single human-readable payload sits behind a fixed
//! string-object marker. The scan is bounds-checked and tolerates
//! arbitrary malformed input.

use vstd::prelude::*;
use vstd::slice::{slice_subrange, slice_to_vec};
use vstd::utf8::{decode_utf8, valid_utf8};

verus! {

/// The sentinel length byte announcing a two-byte little-endian length.
pub const LONG_LENGTH_SENTINEL: u8 = 0x81;

/// Whether the eight marker bytes `NSString` (the string-object header of
/// the archive format) stand at position `p` of `b`.
pub open spec fn marker_at(b: Seq<u8>, p: int) -> bool {
    &&& p >= 0
    &&& p + 8 <= b.len()
    &&& b[p] == 78u8
    &&& b[p + 1] == 83u8
    &&& b[p + 2] == 83u8
    &&& b[p + 3] == 116u8
    &&& b[p + 4] == 114u8
    &&& b[p + 5] == 105u8
    &&& b[p + 6] == 110u8
    &&& b[p + 7] == 103u8
}

/// Position of the first marker occurrence at or after `p`, if any.
pub open spec fn spec_find_marker(b: Seq<u8>, p: int) -> Option<int>
    decreases b.len() - p,
{
    if p < 0 || p + 8 > b.len() {
        None
    } else if marker_at(b, p) {
        Some(p)
    } else {
        spec_find_marker(b, p + 1)
    }
}

/// What the length/payload region after the marker and the five-byte gap
/// decodes to: a one-byte length, or — after the sentinel `0x81` — a
/// two-byte little-endian length, then that many bytes of UTF-8 text.
pub open spec fn spec_parse_payload(data: Seq<u8>) -> Option<Seq<char>> {
    if data.len() == 0 {
        None
    } else {
        let two_byte = data[0] == LONG_LENGTH_SENTINEL && data.len() >= 3;
        let length = if two_byte {
            data[1] + 256 * (data[2] as int)
        } else {
            data[0] as int
        };
        let start: int = if two_byte {
            3
        } else {
            1
        };
        if start + length > data.len() {
            None
        } else {
            let payload = data.subrange(start, start + length);
            if valid_utf8(payload) {
                Some(decode_utf8(payload))
            } else {
                None
            }
        }
    }
}

/// The embedded text payload of a blob: the first marker occurrence, a
/// five-byte structural gap, then the length-prefixed UTF-8 payload.
/// `None` when the marker is absent, the blob is truncated, the declared
/// length overruns the buffer, or the payload is not valid UTF-8.
pub open spec fn spec_parse_attributed_body(b: Seq<u8>) -> Option<Seq<char>> {
    match spec_find_marker(b, 0) {
        None => None,
        Some(p) => {
            let after = b.subrange(p + 8, b.len() as int);
            if after.len() < 6 {
                None
            } else {
                spec_parse_payload(after.subrange(5, after.len() as int))
            }
        },
    }
}

fn marker_matches(b: &[u8], p: usize) -> (r: bool)
    requires
        p + 8 <= b@.len(),
    ensures
        r == marker_at(b@, p as int),
{
    b[p] == 78 && b[p + 1] == 83 && b[p + 2] == 83 && b[p + 3] == 116 && b[p + 4] == 114 && b[p
        + 5] == 105 && b[p + 6] == 110 && b[p + 7] == 103
}

fn find_marker(b: &[u8]) -> (r: Option<usize>)
    ensures
        match r {
            Some(p) => spec_find_marker(b@, 0) == Some(p as int) && marker_at(b@, p as int),
            None => spec_find_marker(b@, 0) is None,
        },
{
    let n = b.len();
    if n < 8 {
        return None;
    }
    let mut p: usize = 0;
    while p <= n - 8
        invariant
            0 <= p <= n,
            n == b@.len(),
            8 <= n,
            spec_find_marker(b@, 0) == spec_find_marker(b@, p as int),
        decreases n - p,
    {
        if marker_matches(b, p) {
            return Some(p);
        }
        p = p + 1;
    }
    None
}

/// Relies on `String::from_utf8`: it returns `Ok` exactly when the bytes
/// are valid UTF-8, and then the string is their UTF-8 decoding.
#[verifier::external_body]
fn utf8_to_string(b: Vec<u8>) -> (r: Option<String>)
    ensures
        r is Some <==> valid_utf8(b@),
        r is Some ==> r->0@ == decode_utf8(b@),
{
    String::from_utf8(b).ok()
}

/// Extract the embedded text payload from a binary blob, or report
/// absence; see [`spec_parse_attributed_body`] for the exact result.
pub fn parse_attributed_body(blob: &[u8]) -> (r: Option<String>)
    ensures
        r is Some <==> spec_parse_attributed_body(blob@) is Some,
        r is Some ==> r->0@ == spec_parse_attributed_body(blob@)->0,
{
    let n = blob.len();
    let pos = match find_marker(blob) {
        None => {
            return None;
        },
        Some(p) => p,
    };
    let ghost after = blob@.subrange(pos + 8, n as int);
    if n - (pos + 8) < 6 {
        return None;
    }
    let data_off = pos + 8 + 5;
    let ghost data = blob@.subrange(data_off as int, n as int);
    proof {
        assert(data =~= after.subrange(5, after.len() as int));
    }
    let b0 = blob[data_off];
    let two_byte = b0 == LONG_LENGTH_SENTINEL && n - data_off >= 3;
    let length: usize = if two_byte {
        blob[data_off + 1] as usize + 256 * (blob[data_off + 2] as usize)
    } else {
        b0 as usize
    };
    let start: usize = if two_byte {
        3
    } else {
        1
    };
    if length > n - data_off - start {
        return None;
    }
    let payload = slice_subrange(blob, data_off + start, data_off + start + length);
    proof {
        assert(payload@ =~= data.subrange(start as int, start as int + length as int));
    }
    utf8_to_string(slice_to_vec(payload))
}

} // verus!
