//! Reconstruction of conversation, message and reaction entities from a
//! read-only message store: a normalizer for the store's epoch-relative
//! timestamps, a decoder for its legacy binary text blobs, a contact-name
//! resolver, a read-only query surface over the store, a resolver that
//! associates annotation rows back onto their target messages, and an
//! assembler that orchestrates the whole pipeline.

use vstd::prelude::*;

pub mod assemble;
pub mod contacts;
pub mod db;
pub mod decoder;
pub mod models;
pub mod reactions;
pub mod send;
pub mod strutil;

verus! {

/// Seconds from the Unix epoch (1970-01-01T00:00:00Z) to the store's
/// anchor epoch (2001-01-01T00:00:00Z).
pub const APPLE_EPOCH_OFFSET: i64 = 978307200;

/// The magnitude bound that disambiguates the two numeric encodings: a
/// raw value whose magnitude exceeds this is nanoseconds since the
/// anchor, otherwise seconds. This is a heuristic, not a tagged
/// encoding — it is exact for real store data because a nanosecond
/// count for any instant more than a quarter hour from the anchor has
/// magnitude far above this bound while a second count stays far below
/// it — and it would misread second-resolution values for dates tens of
/// thousands of years out.
pub const NANOSECOND_THRESHOLD: i64 = 1_000_000_000_000;

/// What `apple_to_unix` computes: raw values whose magnitude exceeds
/// the threshold are nanoseconds since the anchor and are reduced to
/// whole seconds (truncating toward zero, as machine division does)
/// before the anchor offset is added; all other values are seconds
/// already.
pub open spec fn spec_apple_to_unix(apple_ts: int) -> int {
    if apple_ts > NANOSECOND_THRESHOLD {
        apple_ts / 1_000_000_000 + APPLE_EPOCH_OFFSET
    } else if apple_ts < -NANOSECOND_THRESHOLD {
        -((-apple_ts) / 1_000_000_000) + APPLE_EPOCH_OFFSET
    } else {
        apple_ts + APPLE_EPOCH_OFFSET
    }
}

/// Convert an anchor-relative store timestamp (seconds or nanoseconds,
/// disambiguated by magnitude) to seconds since the Unix epoch.
pub fn apple_to_unix(apple_ts: i64) -> (r: i64)
    ensures
        r == spec_apple_to_unix(apple_ts as int),
{
    let ts = if apple_ts > NANOSECOND_THRESHOLD || apple_ts < -NANOSECOND_THRESHOLD {
        apple_ts / 1_000_000_000
    } else {
        apple_ts
    };
    ts + APPLE_EPOCH_OFFSET
}

/// The two numeric encodings agree: a timestamp of `s` whole seconds
/// from the anchor, in either direction, normalizes to the same instant
/// whether it is stored as `s` or as the equivalent nanosecond count
/// `s * 1_000_000_000`, provided the magnitude of `s` is large enough
/// that the nanosecond form crosses the disambiguation threshold.
pub proof fn lemma_second_nanosecond_encodings_agree(s: int)
    requires
        1_000 < s <= NANOSECOND_THRESHOLD || -NANOSECOND_THRESHOLD <= s < -1_000,
    ensures
        spec_apple_to_unix(s * 1_000_000_000) == spec_apple_to_unix(s),
{
    let ns: int = s * 1_000_000_000;
    if s > 0 {
        assert(1_000 * 1_000_000_000 < ns) by (nonlinear_arith)
            requires 1_000 < s, ns == s * 1_000_000_000;
        assert(ns == 1_000_000_000 * s);
        vstd::arithmetic::div_mod::lemma_div_multiples_vanish(s, 1_000_000_000);
    } else {
        assert(ns < -(1_000 * 1_000_000_000)) by (nonlinear_arith)
            requires s < -1_000, ns == s * 1_000_000_000;
        assert(-ns == 1_000_000_000 * (-s));
        vstd::arithmetic::div_mod::lemma_div_multiples_vanish(-s, 1_000_000_000);
    }
}

} // verus!
