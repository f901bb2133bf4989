//! The moment at which a snapshot is taken, and the name it gives it.
//!
//! A snapshot is named after the moment of its making, in universal time:
//! year, month and day, an underscore, and hour, minute and second, with
//! hyphens between the numbers, as in `2024-06-15_12-30-00`. Up to the end
//! of the year 9999 every such name has the same width, so that the order
//! of the names as texts is the order of the moments. The clock is read in
//! whole seconds since the start of 1970; a clock that stands before that
//! gives no moment.

use crate::text::{digit_value, optional_text};
use vstd::prelude::*;

verus! {

/// The last second of the year 9999, counted from the start of 1970: the
/// last moment whose name has four digits for the year.
pub const LAST_MOMENT: u64 = 253_402_300_799;

/// Whether `s` has the form of the name of a moment: four digits, two,
/// and two, an underscore, and two digits three times, with a hyphen
/// between the numbers on either side of the underscore.
pub open spec fn is_stamp(s: Seq<char>) -> bool {
    &&& s.len() == 19
    &&& s[4] == '-' && s[7] == '-' && s[10] == '_' && s[13] == '-' && s[16] == '-'
    &&& forall|i: int|
        0 <= i < 19 && i != 4 && i != 7 && i != 10 && i != 13 && i != 16 ==> digit_value(
            #[trigger] s[i],
        ) is Some
}

/// Whether the moment `seconds` after the start of 1970 lies in the years
/// 1970 to 9999.
pub open spec fn has_a_stamp(seconds: int) -> bool {
    0 <= seconds <= LAST_MOMENT
}

/// Whether `text` is there and has the form of the name of a moment.
pub open spec fn optional_stamp(text: Option<String>) -> bool {
    text matches Some(t) && is_stamp(t@)
}

/// The clock of the machine, as the standard library reads it.
#[verifier::external_type_specification]
#[verifier::external_body]
pub struct ExSystemTime(std::time::SystemTime);

/// What `chrono` writes for the moment `seconds` after the start of 1970
/// in the format `%Y-%m-%d_%H-%M-%S`, and `None` for a moment outside the
/// years that it can hold.
pub uninterp spec fn moment_text(seconds: int) -> Option<Seq<char>>;

/// Reads the clock: calls `std::time::SystemTime::now`. Nothing is claimed
/// of what it shows.
#[verifier::external_body]
fn clock_reading() -> (r: std::time::SystemTime) {
    std::time::SystemTime::now()
}

/// The time from the start of 1970 to `reading`: calls
/// `SystemTime::duration_since` with `UNIX_EPOCH`, which fails where the
/// reading lies before it. Nothing is claimed of the result.
#[verifier::external_body]
fn since_epoch(reading: &std::time::SystemTime) -> (r: Option<std::time::Duration>) {
    match reading.duration_since(std::time::UNIX_EPOCH) {
        Ok(span) => Some(span),
        Err(_) => None,
    }
}

/// The whole seconds of a span of time: calls `Duration::as_secs`. Nothing
/// is claimed of the number.
#[verifier::external_body]
fn whole_seconds(span: &std::time::Duration) -> (r: u64) {
    span.as_secs()
}

/// Writes the moment `seconds` after the start of 1970: calls
/// `chrono::DateTime::from_timestamp` and, where that gives a moment,
/// formats it with `%Y-%m-%d_%H-%M-%S`. The text depends on the seconds
/// alone. Claimed beyond that is what the source shows for the years 1970
/// to 9999: `from_timestamp` gives a moment, the year is written with four
/// digits and each of the other five numbers with two.
#[verifier::external_body]
fn written_moment(seconds: i64) -> (r: Option<String>)
    ensures
        optional_text(r) == moment_text(seconds as int),
        has_a_stamp(seconds as int) ==> optional_stamp(r),
{
    match chrono::DateTime::from_timestamp(seconds, 0) {
        Some(moment) => Some(moment.format("%Y-%m-%d_%H-%M-%S").to_string()),
        None => None,
    }
}

/// The name of the moment `seconds` after the start of 1970. A moment
/// after the year 9999 has none: its name would be wider than the others
/// and come before them.
pub fn stamp_of(seconds: u64) -> (r: Option<String>)
    ensures
        r is Some <==> has_a_stamp(seconds as int),
        r matches Some(t) ==> moment_text(seconds as int) == Some(t@) && is_stamp(t@),
{
    if seconds > LAST_MOMENT {
        None
    } else {
        written_moment(seconds as i64)
    }
}

/// The seconds that the clock shows since the start of 1970, and `None`
/// where it stands before that.
fn seconds_now() -> (r: Option<u64>) {
    let reading = clock_reading();
    match since_epoch(&reading) {
        Some(span) => Some(whole_seconds(&span)),
        None => None,
    }
}

/// Whether `stamp` is the name of a moment up to the end of the year 9999.
pub open spec fn names_a_moment(stamp: Seq<char>) -> bool {
    exists|seconds: int| has_a_stamp(seconds) && moment_text(seconds) == Some(stamp)
}

/// The name of the present moment, and `None` where the clock shows no
/// moment that has one.
pub fn stamp_now() -> (r: Option<String>)
    ensures
        r matches Some(t) ==> is_stamp(t@) && names_a_moment(t@),
{
    match seconds_now() {
        Some(seconds) => stamp_of(seconds),
        None => None,
    }
}

} // verus!
