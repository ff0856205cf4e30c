//! Change times as text: the date of a moment in a time zone that lies a
//! given number of seconds east of Greenwich.

use chrono::{DateTime, Datelike, FixedOffset};
use vstd::prelude::*;

use crate::entry::text_of;

verus! {

/// The last second that is shown as a date: the end of the year 9999, in
/// seconds since the epoch.
pub const LAST_SHOWN_SECOND: i64 = 253_402_300_799;

/// Whether `pattern` is one of the two patterns that dates are shown in: the
/// day with the time of day, or the day with the year.
pub open spec fn is_date_pattern(pattern: Seq<char>) -> bool {
    pattern == "%b %e %H:%M"@ || pattern == "%b %e  %Y"@
}

/// Whether a zone can lie `offset` seconds east of Greenwich: less than a
/// day to either side.
pub open spec fn is_zone_offset(offset: i32) -> bool {
    -86_400 < offset < 86_400
}

/// The calendar year that chrono gives the moment `secs` seconds after the
/// epoch in the zone `offset` seconds east of Greenwich; none where chrono
/// has no date for the moment or no zone of that offset.
pub uninterp spec fn zone_year(secs: i64, offset: i32) -> Option<i32>;

/// What chrono writes of the moment `secs` seconds after the epoch in the
/// zone `offset` seconds east of Greenwich, after `pattern`; none where
/// chrono has no date for the moment or no zone of that offset.
pub uninterp spec fn zone_text(secs: i64, offset: i32, pattern: Seq<char>) -> Option<Seq<char>>;

/// The calendar year of the moment `secs` seconds after the epoch in the
/// zone `offset` seconds east of Greenwich.
///
/// Calls chrono's `Datelike::year` on the moment, which
/// `DateTime::from_timestamp_secs` makes from `secs` and
/// `DateTime::with_timezone` brings to the zone that `FixedOffset::east_opt`
/// makes of `offset`. The year depends on the two numbers alone and is
/// named `zone_year`. There is one for every moment from the epoch to the
/// end of the year 9999 in every zone: `from_timestamp_secs` has a date for
/// each second whose day lies within chrono's calendar, which runs to the
/// year 262142, and `east_opt` takes every offset of less than a day.
#[verifier::external_body]
fn year_in_zone(secs: i64, offset: i32) -> (year: Option<i32>)
    ensures
        year == zone_year(secs, offset),
        0 <= secs <= LAST_SHOWN_SECOND && is_zone_offset(offset) ==> year is Some,
{
    match (DateTime::from_timestamp_secs(secs), FixedOffset::east_opt(offset)) {
        (Some(utc), Some(zone)) => Some(utc.with_timezone(&zone).year()),
        _ => None,
    }
}

/// The moment `secs` seconds after the epoch in the zone `offset` seconds
/// east of Greenwich, written after `pattern`.
///
/// Calls chrono's `DateTime::format` on the moment, which
/// `DateTime::from_timestamp_secs` makes from `secs` and
/// `DateTime::with_timezone` brings to the zone that `FixedOffset::east_opt`
/// makes of `offset`, and takes what it writes as a `String`. The text
/// depends on the three arguments alone and is named `zone_text`. There is
/// one wherever there is a year. `pattern` is one of the two date patterns,
/// which hold none but specifiers that chrono knows, so that the writing
/// does not fail.
#[verifier::external_body]
fn text_in_zone(secs: i64, offset: i32, pattern: &str) -> (text: Option<String>)
    requires
        is_date_pattern(pattern@),
    ensures
        text_of(text) == zone_text(secs, offset, pattern@),
        0 <= secs <= LAST_SHOWN_SECOND && is_zone_offset(offset) ==> text is Some,
{
    match (DateTime::from_timestamp_secs(secs), FixedOffset::east_opt(offset)) {
        (Some(utc), Some(zone)) => Some(utc.with_timezone(&zone).format(pattern).to_string()),
        _ => None,
    }
}

/// The pattern for a date of the year `year`, seen from `current_year`: a
/// date of the current year shows the time of day, any other its year.
pub open spec fn pattern_for(year: i32, current_year: isize) -> Seq<char> {
    if year == current_year {
        "%b %e %H:%M"@
    } else {
        "%b %e  %Y"@
    }
}

/// The pattern for a date of the year `year`, seen from `current_year`.
pub fn date_pattern(year: i32, current_year: isize) -> (pattern: &'static str)
    ensures
        pattern@ == pattern_for(year, current_year),
{
    if year as isize == current_year {
        "%b %e %H:%M"
    } else {
        "%b %e  %Y"
    }
}

/// The text that a row shows for the change time `ctime`, in seconds since
/// the epoch, in the zone `offset` seconds east of Greenwich: what chrono
/// writes of it after the pattern for its year in that zone. A time behind
/// the year 9999 has none.
pub open spec fn shown_time(ctime: usize, offset: i32, current_year: isize) -> Option<Seq<char>> {
    if ctime > LAST_SHOWN_SECOND {
        None
    } else {
        match zone_year(ctime as i64, offset) {
            Some(year) => zone_text(ctime as i64, offset, pattern_for(year, current_year)),
            None => None,
        }
    }
}

/// The change time `ctime`, in seconds since the epoch, as the text that a
/// row shows: its date in the zone `offset` seconds east of Greenwich, with
/// the time of day if it is of `current_year`, else with its year. Every
/// time up to the end of the year 9999 has such a text in every zone; a time
/// behind it has none.
pub fn change_time_text(ctime: usize, offset: i32, current_year: isize) -> (text: Option<String>)
    ensures
        text_of(text) == shown_time(ctime, offset, current_year),
        ctime > LAST_SHOWN_SECOND ==> text is None,
        ctime <= LAST_SHOWN_SECOND && is_zone_offset(offset) ==> text is Some,
{
    if ctime as u64 > LAST_SHOWN_SECOND as u64 {
        return None;
    }
    let secs = ctime as i64;
    match year_in_zone(secs, offset) {
        Some(year) => text_in_zone(secs, offset, date_pattern(year, current_year)),
        None => None,
    }
}

} // verus!
