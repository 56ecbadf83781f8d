//! Writing a file's timestamp as the local date and minute.

use vstd::prelude::*;

verus! {

/// The largest number of seconds since the Unix epoch that is written as a date:
/// the C library's `localtime_r` fails, and `time::at` panics, once the year no
/// longer fits in an `int`; below `2^55` seconds it always fits.
pub const MAX_DATE_SECS: u64 = 0x0080_0000_0000_0000;

/// The `strftime` format of a file time: the date (`%F`, year-month-day), a
/// space, and the hour and minute (`%R`, `HH:MM`).
pub open spec fn date_minute_format() -> Seq<char> {
    "%F %R"@
}

/// Calls `time::at` on `secs` seconds since the Unix epoch (through
/// `time::Timespec::new`), then `time::strftime` with `fmt`: the local time as
/// text, or `None` when `strftime` rejects the format or the broken-down time.
/// The text depends on the machine's time zone, so nothing is claimed of it.
/// `time::at` panics when the C library cannot convert the time, which the
/// `requires` keeps out.
#[verifier::external_body]
fn local_time_text(fmt: &str, secs: i64) -> (r: Option<String>)
    requires
        -(MAX_DATE_SECS as int) < secs < MAX_DATE_SECS,
        fmt@ == date_minute_format(),
{
    let tm = time::at(time::Timespec::new(secs, 0));
    match time::strftime(fmt, &tm) {
        Ok(s) => Some(s),
        Err(_) => None,
    }
}

/// A file time, `secs` seconds after the Unix epoch, as local date and minute
/// (`%F %R`, such as `2020-01-02 03:04`). The format is one that `strftime`
/// takes; should it still refuse, the text is empty.
pub fn display_date(secs: u64) -> String
    requires
        secs < MAX_DATE_SECS,
{
    match local_time_text("%F %R", secs as i64) {
        Some(s) => s,
        None => String::new(),
    }
}

} // verus!
