//! The calendar, as far as session identifiers need it.

use crate::session::Instant;
use std::fmt::Write;
use vstd::prelude::*;

verus! {

/// Whether an instant can be written under a pattern: `DateTime::from_timestamp`
/// accepts `secs` seconds and `nanos` nanoseconds as a point in time, and
/// `DateTime::format` can write that point under `pattern`.
pub uninterp spec fn is_formattable(secs: int, nanos: int, pattern: Seq<char>) -> bool;

/// The text that `DateTime::format` writes for the UTC date and time of a
/// point in time under `pattern`.
pub uninterp spec fn formatted_time(secs: int, nanos: int, pattern: Seq<char>) -> Seq<char>;

/// `DateTime::from_timestamp`, then `DateTime::format` with `pattern`,
/// written out: `None` where the calendar has no such point in time or the
/// pattern cannot be written, else the text, which depends on the instant
/// and the pattern alone.
#[verifier::external_body]
pub(crate) fn format_instant(at: Instant, pattern: &str) -> (text: Option<String>)
    ensures
        text is Some <==> is_formattable(at.secs as int, at.nanos as int, pattern@),
        text matches Some(s) ==> s@ == formatted_time(at.secs as int, at.nanos as int, pattern@),
{
    let time = chrono::DateTime::from_timestamp(at.secs, at.nanos)?;
    let mut text = String::new();
    match write!(text, "{}", time.format(pattern)) {
        Ok(()) => Some(text),
        Err(_) => None,
    }
}

} // verus!
