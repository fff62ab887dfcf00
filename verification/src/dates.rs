//! Publication dates: proleptic-Gregorian calendar arithmetic, parsing of
//! the `YYYY-MM-DD` filename prefix, and human-readable formatting.
//!
//! A publication instant is held as whole seconds since the Unix epoch
//! (midnight UTC for dates parsed from filenames, the load-time clock
//! otherwise).

use vstd::prelude::*;
use vstd::string::StrSliceExecFns;

verus! {

/// Day number of 1970-01-01 counted from 0000-01-01 in the proleptic
/// Gregorian calendar.
pub const EPOCH_DAY_NUMBER: i64 = 719528;

pub const SECONDS_PER_DAY: i64 = 86400;

/// Midnight of 0000-01-01, the earliest instant a four-digit year can name.
pub const MIN_TIMESTAMP: i64 = -62167219200;

/// Upper bound on midnight of any date up to 9999-12-31.
pub const MAX_TIMESTAMP: i64 = 253402300800;

/// Timestamps the library stores: seconds reachable from a four-digit year,
/// or a clamped load-time clock reading.
pub open spec fn valid_timestamp(ts: int) -> bool {
    MIN_TIMESTAMP <= ts <= MAX_TIMESTAMP
}

pub open spec fn is_leap_year(y: int) -> bool {
    y % 4 == 0 && (y % 100 != 0 || y % 400 == 0)
}

pub open spec fn days_in_month(y: int, m: int) -> int {
    if m == 2 {
        if is_leap_year(y) {
            29
        } else {
            28
        }
    } else if m == 4 || m == 6 || m == 9 || m == 11 {
        30
    } else {
        31
    }
}

pub open spec fn valid_date(y: int, m: int, d: int) -> bool {
    0 <= y <= 9999 && 1 <= m <= 12 && 1 <= d <= days_in_month(y, m)
}

/// Days in the months of year `y` strictly before month `m`.
pub open spec fn days_before_month(y: int, m: int) -> int {
    let base = if m == 1 {
        0int
    } else if m == 2 {
        31
    } else if m == 3 {
        59
    } else if m == 4 {
        90
    } else if m == 5 {
        120
    } else if m == 6 {
        151
    } else if m == 7 {
        181
    } else if m == 8 {
        212
    } else if m == 9 {
        243
    } else if m == 10 {
        273
    } else if m == 11 {
        304
    } else {
        334
    };
    base + if m > 2 && is_leap_year(y) {
        1int
    } else {
        0int
    }
}

/// Days strictly before year `y`, counted from 0000-01-01 (year 0 is a leap
/// year in the proleptic Gregorian calendar).
pub open spec fn days_before_year(y: int) -> int {
    365 * y + (y + 3) / 4 - (y + 99) / 100 + (y + 399) / 400
}

/// Day number of `y-m-d` counted from 0000-01-01.
pub open spec fn day_number(y: int, m: int, d: int) -> int {
    days_before_year(y) + days_before_month(y, m) + (d - 1)
}

/// Seconds since the Unix epoch at midnight UTC of `y-m-d`.
pub open spec fn date_timestamp(y: int, m: int, d: int) -> int {
    (day_number(y, m, d) - EPOCH_DAY_NUMBER) * SECONDS_PER_DAY
}

pub proof fn lemma_date_timestamp_valid(y: int, m: int, d: int)
    requires
        valid_date(y, m, d),
    ensures
        valid_timestamp(date_timestamp(y, m, d)),
{
}

pub open spec fn is_digit(c: char) -> bool {
    48 <= c as u32 <= 57
}

pub open spec fn digit_val(c: char) -> int {
    c as u32 - 48
}

/// Whether the first ten characters of `s` read `YYYY-MM-DD` and name a
/// real calendar date.
pub open spec fn has_date_prefix(s: Seq<char>) -> bool {
    &&& s.len() >= 10
    &&& is_digit(s[0])
    &&& is_digit(s[1])
    &&& is_digit(s[2])
    &&& is_digit(s[3])
    &&& s[4] == '-'
    &&& is_digit(s[5])
    &&& is_digit(s[6])
    &&& s[7] == '-'
    &&& is_digit(s[8])
    &&& is_digit(s[9])
    &&& valid_date(prefix_year(s), prefix_month(s), prefix_day(s))
}

pub open spec fn prefix_year(s: Seq<char>) -> int {
    digit_val(s[0]) * 1000 + digit_val(s[1]) * 100 + digit_val(s[2]) * 10 + digit_val(s[3])
}

pub open spec fn prefix_month(s: Seq<char>) -> int {
    digit_val(s[5]) * 10 + digit_val(s[6])
}

pub open spec fn prefix_day(s: Seq<char>) -> int {
    digit_val(s[8]) * 10 + digit_val(s[9])
}

/// The publication instant encoded in a filename stem, if any: the first
/// ten characters as `YYYY-MM-DD`, taken at midnight UTC.
pub open spec fn date_prefix_timestamp(s: Seq<char>) -> Option<int> {
    if has_date_prefix(s) {
        Some(date_timestamp(prefix_year(s), prefix_month(s), prefix_day(s)))
    } else {
        None
    }
}

fn leap_year(y: u32) -> (b: bool)
    ensures
        b == is_leap_year(y as int),
{
    y % 4 == 0 && (y % 100 != 0 || y % 400 == 0)
}

fn month_length(y: u32, m: u32) -> (r: u32)
    ensures
        r == days_in_month(y as int, m as int),
{
    if m == 2 {
        if leap_year(y) {
            29
        } else {
            28
        }
    } else if m == 4 || m == 6 || m == 9 || m == 11 {
        30
    } else {
        31
    }
}

fn month_offset(y: u32, m: u32) -> (r: u32)
    requires
        1 <= m <= 12,
    ensures
        r == days_before_month(y as int, m as int),
{
    let base: u32 = if m == 1 {
        0
    } else if m == 2 {
        31
    } else if m == 3 {
        59
    } else if m == 4 {
        90
    } else if m == 5 {
        120
    } else if m == 6 {
        151
    } else if m == 7 {
        181
    } else if m == 8 {
        212
    } else if m == 9 {
        243
    } else if m == 10 {
        273
    } else if m == 11 {
        304
    } else {
        334
    };
    if m > 2 && leap_year(y) {
        base + 1
    } else {
        base
    }
}

/// Midnight UTC of `y-m-d` as seconds since the Unix epoch.
pub fn timestamp_of_date(y: u32, m: u32, d: u32) -> (ts: i64)
    requires
        valid_date(y as int, m as int, d as int),
    ensures
        ts == date_timestamp(y as int, m as int, d as int),
        valid_timestamp(ts as int),
{
    let yy = y as u64;
    let days: u64 = 365 * yy + (yy + 3) / 4 - (yy + 99) / 100 + (yy + 399) / 400
        + month_offset(y, m) as u64 + (d - 1) as u64;
    (days as i64 - EPOCH_DAY_NUMBER) * SECONDS_PER_DAY
}

/// Reads the `YYYY-MM-DD` prefix of a filename stem, returning midnight UTC
/// of that date, or `None` when the stem is short, malformed, or names no
/// real calendar date.
pub fn parse_date_prefix(stem: &str) -> (r: Option<i64>)
    ensures
        r is Some <==> date_prefix_timestamp(stem@) is Some,
        r matches Some(ts) ==> {
            &&& date_prefix_timestamp(stem@) == Some(ts as int)
            &&& valid_timestamp(ts as int)
        },
{
    let n = stem.unicode_len();
    if n < 10 {
        return None;
    }
    let c0 = stem.get_char(0);
    let c1 = stem.get_char(1);
    let c2 = stem.get_char(2);
    let c3 = stem.get_char(3);
    let c4 = stem.get_char(4);
    let c5 = stem.get_char(5);
    let c6 = stem.get_char(6);
    let c7 = stem.get_char(7);
    let c8 = stem.get_char(8);
    let c9 = stem.get_char(9);
    if !(digit(c0) && digit(c1) && digit(c2) && digit(c3) && c4 == '-' && digit(c5) && digit(c6)
        && c7 == '-' && digit(c8) && digit(c9)) {
        return None;
    }
    let y = value_of(c0) * 1000 + value_of(c1) * 100 + value_of(c2) * 10 + value_of(c3);
    let m = value_of(c5) * 10 + value_of(c6);
    let d = value_of(c8) * 10 + value_of(c9);
    if 1 <= m && m <= 12 && 1 <= d && d <= month_length(y, m) {
        Some(timestamp_of_date(y, m, d))
    } else {
        None
    }
}

/// What chrono renders for a timestamp under `%B %d, %Y`, e.g.
/// "January 02, 2024": a function of the timestamp alone.
pub uninterp spec fn human_date_of(ts: int) -> Seq<char>;

/// Relies on chrono::DateTime::from_timestamp (in range for every valid
/// timestamp) and chrono's `%B %d, %Y` formatting, which depends on the
/// timestamp alone.
#[verifier::external_body]
pub fn format_timestamp(ts: i64) -> (r: String)
    requires
        valid_timestamp(ts as int),
    ensures
        r@ == human_date_of(ts as int),
{
    chrono::DateTime::<chrono::Utc>::from_timestamp(ts, 0).unwrap().format("%B %d, %Y").to_string()
}

/// Relies on std::time::SystemTime::now: a clock reading, of which
/// nothing is promised; a clock set before the Unix epoch reads as zero
/// rather than failing.
#[verifier::external_body]
fn current_timestamp() -> i64 {
    match std::time::SystemTime::now().duration_since(std::time::UNIX_EPOCH) {
        Ok(d) => d.as_secs() as i64,
        Err(_) => 0,
    }
}

/// The load-time clock reading, clamped into the representable range.
pub fn load_time_now() -> (t: i64)
    ensures
        valid_timestamp(t as int),
{
    let now = current_timestamp();
    if now < MIN_TIMESTAMP {
        MIN_TIMESTAMP
    } else if now > MAX_TIMESTAMP {
        MAX_TIMESTAMP
    } else {
        now
    }
}

fn digit(c: char) -> (b: bool)
    ensures
        b == is_digit(c),
{
    let u = c as u32;
    48 <= u && u <= 57
}

fn value_of(c: char) -> (v: u32)
    requires
        is_digit(c),
    ensures
        v == digit_val(c),
{
    c as u32 - 48
}

} // verus!
