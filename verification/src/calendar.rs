//! Instants as calendar text: the proleptic Gregorian date and the time of
//! day of a count of seconds since 1970-01-01 00:00, written
//! `YYYY-MM-DD HH:MM`.

use vstd::prelude::*;
use crate::num::{dec, digit_char};

verus! {

/// The earliest and latest years chrono's dates reach.
pub const CHRONO_MIN_YEAR: i32 = -262143;
pub const CHRONO_MAX_YEAR: i32 = 262142;

/// The year, month (1..=12) and day of month (1..=31) of the day `days`
/// days after 1970-01-01 (before it where negative), in the proleptic
/// Gregorian calendar: days are counted in 400-year eras of 146097 days,
/// and within an era in years that start on the 1st of March.
pub open spec fn civil_date(days: int) -> (int, int, int) {
    let z = days + 719468;
    let era = z / 146097;
    let doe = z - era * 146097;
    let yoe = (doe - doe / 1460 + doe / 36524 - doe / 146096) / 365;
    let y = yoe + era * 400;
    let doy = doe - (365 * yoe + yoe / 4 - yoe / 100);
    let mp = (5 * doy + 2) / 153;
    let d = doy - (153 * mp + 2) / 5 + 1;
    let m = if mp < 10 {
        mp + 3
    } else {
        mp - 9
    };
    (if m <= 2 {
        y + 1
    } else {
        y
    }, m, d)
}

/// `n` (0..=99) in two digits.
pub open spec fn two_digits(n: int) -> Seq<char> {
    seq![digit_char((n / 10) as nat), digit_char((n % 10) as nat)]
}

/// `s` padded on the left with zeros to at least `width` characters.
pub open spec fn zero_padded(s: Seq<char>, width: nat) -> Seq<char> {
    if s.len() >= width {
        s
    } else {
        Seq::new((width - s.len()) as nat, |i: int| '0') + s
    }
}

/// A year as `%Y` writes it: four digits for 0..=9999, else a sign and at
/// least four digits.
pub open spec fn year_text(y: int) -> Seq<char> {
    if 0 <= y <= 9999 {
        zero_padded(dec(y as nat), 4)
    } else if y < 0 {
        seq!['-'] + zero_padded(dec((-y) as nat), 4)
    } else {
        seq!['+'] + zero_padded(dec(y as nat), 4)
    }
}

/// The instant `secs` seconds after 1970-01-01 00:00 as `YYYY-MM-DD HH:MM`.
pub open spec fn minute_text(secs: int) -> Seq<char> {
    let day = secs / 86400;
    let in_day = secs % 86400;
    let (y, m, d) = civil_date(day);
    year_text(y) + seq!['-'] + two_digits(m) + seq!['-'] + two_digits(d) + seq![' '] + two_digits(in_day / 3600)
        + seq![':'] + two_digits((in_day % 3600) / 60)
}

/// chrono represents the instant `ts` seconds after the epoch exactly when
/// its day falls in a year chrono's dates reach.
pub open spec fn chrono_accepts_timestamp(ts: i64) -> bool {
    CHRONO_MIN_YEAR <= civil_date(ts as int / 86400).0 <= CHRONO_MAX_YEAR
}

} // verus!
