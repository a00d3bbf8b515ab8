//! The current local time, read once per operation.

use vstd::prelude::*;
use chrono::Datelike;
use chrono::Timelike;
use chrono::Offset;
use crate::time::Timestamp;

verus! {

/// Relies on `chrono::Local::now` with the `Datelike`/`Timelike` accessors
/// and `FixedOffset::local_minus_utc`: months are 1 to 12, days 1 to 31,
/// hours below 24, minutes and seconds below 60, and the offset within a
/// day of UTC. Nothing is promised of the year or of which moment is read.
#[verifier::external_body]
fn clock_fields() -> (r: (i32, u32, u32, u32, u32, u32, i32))
    ensures
        1 <= r.1 <= 12,
        1 <= r.2 <= 31,
        r.3 <= 23,
        r.4 <= 59,
        r.5 <= 59,
        -1439 <= r.6 <= 1439,
{
    let n = chrono::Local::now();
    (
        n.year(),
        n.month(),
        n.day(),
        n.hour(),
        n.minute(),
        n.second(),
        n.offset().fix().local_minus_utc() / 60,
    )
}

/// The current local time as a well-formed timestamp; a year outside the
/// model's range (years 1 to 9999) is clamped to its nearer bound.
pub fn now() -> (t: Timestamp)
    ensures
        t.wf(),
{
    let (y, month, day, hour, minute, second, offset_minutes) = clock_fields();
    let year: u32 = if y < 1 {
        1
    } else if y > 9999 {
        9999
    } else {
        y as u32
    };
    Timestamp { year, month, day, hour, minute, second, offset_minutes }
}

} // verus!
