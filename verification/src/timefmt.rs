//! Rendering epoch times as human-readable UTC text, via chrono.

use vstd::prelude::*;

verus! {

/// The text `chrono` renders for an epoch second count, `"%Y-%m-%d
/// %H:%M:%S UTC"`; empty for counts beyond chrono's supported range.
pub uninterp spec fn utc_text_of(secs: u64) -> Seq<char>;

/// Relies on `chrono::DateTime::<Utc>::from_timestamp` and `format`:
/// the rendered text depends on the epoch seconds alone (UTC involves
/// no locale and no time zone lookup).
#[verifier::external_body]
pub fn utc_text(secs: u64) -> (r: String)
    ensures
        r@ == utc_text_of(secs),
{
    match chrono::DateTime::<chrono::Utc>::from_timestamp(secs as i64, 0) {
        Some(dt) => dt.format("%Y-%m-%d %H:%M:%S UTC").to_string(),
        None => String::new(),
    }
}

} // verus!
