//! Points in time with their offset from UTC, and their RFC 3339 text.

use vstd::prelude::*;

verus! {

/// A date and time of day on a local clock, and that clock's offset from UTC.
#[derive(Clone, Copy, PartialEq, Eq, Structural, Debug)]
pub struct Timestamp {
    /// Nanoseconds from 1970-01-01T00:00:00 to this moment, both read on the
    /// local clock.
    pub local_nanos: i128,
    /// Seconds by which the local clock is ahead of UTC.
    pub offset_seconds: i32,
}

/// The local clock's reading at 0000-01-01T00:00:00, in seconds.
pub const YEAR_0_START: i128 = -62_167_219_200;

/// The local clock's reading behind 9999-12-31T23:59:59, in seconds.
pub const YEAR_9999_END: i128 = 253_402_300_800;

/// Whether RFC 3339 can write a moment: four digits hold the year, and the
/// offset is less than a day, in whole minutes.
pub open spec fn is_rfc3339(t: Timestamp) -> bool {
    &&& YEAR_0_START * 1_000_000_000 <= t.local_nanos < YEAR_9999_END * 1_000_000_000
    &&& -86_400 < t.offset_seconds < 86_400
    &&& t.offset_seconds % 60 == 0
}

/// The text that `OffsetDateTime::format` writes for a moment.
pub uninterp spec fn rfc3339_text(t: Timestamp) -> Seq<char>;

/// The moment that `OffsetDateTime::parse` reads from a text.
pub uninterp spec fn rfc3339_value(s: Seq<char>) -> Option<Timestamp>;

/// `time::OffsetDateTime::format` with the well-known description `Rfc3339`,
/// on the date and time of day that `from_unix_timestamp_nanos` makes of the
/// local clock's reading, at the given offset. The text depends on the moment
/// alone; there is one exactly where RFC 3339 can write the moment; and
/// `OffsetDateTime::parse` reads that moment back from it.
#[verifier::external_body]
pub(crate) fn format_rfc3339(t: &Timestamp) -> (r: Option<String>)
    ensures
        r is Some <==> is_rfc3339(*t),
        r matches Some(s) ==> s@ == rfc3339_text(*t),
        r matches Some(s) ==> rfc3339_value(s@) == Some(*t),
{
    let clock = time::OffsetDateTime::from_unix_timestamp_nanos(t.local_nanos).ok()?;
    let offset = time::UtcOffset::from_whole_seconds(t.offset_seconds).ok()?;
    clock.replace_offset(offset).format(&time::format_description::well_known::Rfc3339).ok()
}

/// `time::OffsetDateTime::parse` with the well-known description `Rfc3339`.
/// Its result depends on the text alone, and is a moment that RFC 3339 can
/// write. Which texts it reads, and how, is left unsaid.
#[verifier::external_body]
pub(crate) fn parse_rfc3339(s: &str) -> (r: Option<Timestamp>)
    ensures
        r == rfc3339_value(s@),
        r matches Some(t) ==> is_rfc3339(t),
{
    match time::OffsetDateTime::parse(s, &time::format_description::well_known::Rfc3339) {
        Ok(moment) => Some(
            Timestamp {
                local_nanos: moment.replace_offset(time::UtcOffset::UTC).unix_timestamp_nanos(),
                offset_seconds: moment.offset().whole_seconds(),
            },
        ),
        Err(_) => None,
    }
}

} // verus!
