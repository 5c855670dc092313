//! Calendar arithmetic for report timestamps (`YYYYMMDD_HHmmss`, UTC), and
//! the order in which report file times are tried.
use vstd::prelude::*;

use crate::text::{decimal, push_char, string_of, zero_padded, zero_padded_vec};

verus! {

/// The first day of the era that holds day `z` (counted from 0000-03-01),
/// as floor division by the 146097 days of a 400-year era.
pub open spec fn era_of(z: int) -> int {
    z / 146097
}

/// The proleptic Gregorian date (year, month, day) of a day counted from
/// 1970-01-01, by the days-from-civil inversion with eras of 400 years
/// starting on March 1st.
pub open spec fn civil_spec(days: int) -> (int, int, int) {
    let z = days + 719468;
    let era = era_of(z);
    let doe = z - era * 146097;
    let yoe = (doe - doe / 1460 + doe / 36524 - doe / 146096) / 365;
    let y = yoe + era * 400;
    let doy = doe - (365 * yoe + yoe / 4 - yoe / 100);
    let mp = (5 * doy + 2) / 153;
    let d = doy - (153 * mp + 2) / 5 + 1;
    let m = if mp < 10 {
        mp + 3
    } else {
        mp - 9
    };
    (if m <= 2 {
        y + 1
    } else {
        y
    }, m, d)
}

/// The text `YYYYMMDD_HHmmss` of a civil date and a second within its day.
pub open spec fn stamp_text(date: (int, int, int), day_seconds: int) -> Seq<char> {
    zero_padded(date.0, 4) + zero_padded(date.1, 2) + zero_padded(date.2, 2) + seq!['_']
        + zero_padded(day_seconds / 3600, 2) + zero_padded((day_seconds % 3600) / 60, 2)
        + zero_padded(day_seconds % 60, 2)
}

/// The timestamp text `YYYYMMDD_HHmmss` of a number of seconds since the epoch.
pub open spec fn timestamp_spec(seconds: int) -> Seq<char> {
    stamp_text(civil_spec(seconds / 86400), seconds % 86400)
}

/// The inputs on which the day arithmetic stays within `i64`.
pub open spec fn days_in_range(days: int) -> bool {
    i64::MIN + 146096 - 719468 <= days <= i64::MAX - 719468
}

/// Converts days since 1970-01-01 to the civil (year, month, day).
pub fn civil_from_days(days_since_epoch: i64) -> (r: (i64, i64, i64))
    requires
        days_in_range(days_since_epoch as int),
    ensures
        (r.0 as int, r.1 as int, r.2 as int) == civil_spec(days_since_epoch as int),
{
    let z = days_since_epoch + 719_468;
    let era: i64 = if z >= 0 {
        z / 146_097
    } else {
        (z - 146_096) / 146_097
    };
    proof {
        lemma_era_floor(z as int);
    }
    assert(era as int == era_of(z as int));
    let doe = z - era * 146_097;
    assert(0 <= doe < 146097) by (nonlinear_arith)
        requires
            doe == z - era * 146097,
            era == z / 146097,
    ;
    let yoe = (doe - doe / 1_460 + doe / 36_524 - doe / 146_096) / 365;
    assert(0 <= yoe <= 400) by (nonlinear_arith)
        requires
            0 <= doe < 146097,
            yoe == (doe - doe / 1460 + doe / 36524 - doe / 146096) / 365,
    ;
    assert(-64000000000000 <= era <= 64000000000000) by (nonlinear_arith)
        requires
            era == (z as int) / 146097,
            -9223372036854775808 <= z <= 9223372036854775807,
    ;
    let y = yoe + era * 400;
    let doy = doe - (365 * yoe + yoe / 4 - yoe / 100);
    assert(0 <= doy <= 366) by (nonlinear_arith)
        requires
            0 <= doe < 146097,
            yoe == (doe - doe / 1460 + doe / 36524 - doe / 146096) / 365,
            doy == doe - (365 * yoe + yoe / 4 - yoe / 100),
    ;
    let mp = (5 * doy + 2) / 153;
    let d = doy - (153 * mp + 2) / 5 + 1;
    let m = mp + if mp < 10 {
        3
    } else {
        -9
    };
    let leap: i64 = if m <= 2 {
        1
    } else {
        0
    };
    (y + leap, m, d)
}

/// Floor division by the era length, written with truncating division.
proof fn lemma_era_floor(z: int)
    ensures
        z >= 0 ==> z / 146097 == era_of(z),
        z < 0 ==> -((146096 - z) / 146097) == era_of(z),
{
    if z < 0 {
        let q = z / 146097;
        assert(q * 146097 <= z < q * 146097 + 146097) by (nonlinear_arith)
            requires
                q == z / 146097,
        ;
        let t = (146096 - z) / 146097;
        assert(t * 146097 <= 146096 - z < t * 146097 + 146097) by (nonlinear_arith)
            requires
                t == (146096 - z) / 146097,
        ;
        assert(t == -q) by (nonlinear_arith)
            requires
                q * 146097 <= z < q * 146097 + 146097,
                t * 146097 <= 146096 - z < t * 146097 + 146097,
        ;
    }
}

/// Builds the text of a string from character vectors.
fn append_vec(s: &mut String, v: &Vec<char>)
    ensures
        final(s)@ == old(s)@ + v@,
{
    let ghost start = s@;
    let mut i: usize = 0;
    while i < v.len()
        invariant
            i <= v.len(),
            s@ =~= start + v@.take(i as int),
        decreases v.len() - i,
    {
        push_char(s, v[i]);
        i = i + 1;
    }
    assert(v@.take(v.len() as int) =~= v@);
}

/// Splits seconds since the epoch into whole days and the second within the
/// day, both by floor division.
pub(crate) fn split_epoch_seconds(seconds: i64) -> (r: (i64, i64))
    ensures
        r.0 as int == (seconds as int) / 86400,
        r.1 as int == (seconds as int) % 86400,
        days_in_range(r.0 as int),
{
    let q = seconds / 86_400;
    let rem = seconds % 86_400;
    let (days, day_seconds) = if rem < 0 {
        (q - 1, rem + 86_400)
    } else {
        (q, rem)
    };
    assert(days as int == (seconds as int) / 86400 && day_seconds as int == (seconds as int) % 86400) by (nonlinear_arith)
        requires
            q * 86400 + rem == seconds,
            -86400 < rem < 86400,
            rem < 0 ==> days == q - 1 && day_seconds == rem + 86400,
            rem >= 0 ==> days == q && day_seconds == rem,
    ;
    assert(days_in_range(days as int)) by (nonlinear_arith)
        requires
            days == (seconds as int) / 86400,
            -9223372036854775808 <= seconds <= 9223372036854775807,
    ;
    (days, day_seconds)
}

/// Writes a civil date and a second within its day as `YYYYMMDD_HHmmss`.
pub(crate) fn format_stamp(date: (i64, i64, i64), day_seconds: i64) -> (r: String)
    requires
        0 <= day_seconds < 86400,
    ensures
        r@ == stamp_text((date.0 as int, date.1 as int, date.2 as int), day_seconds as int),
{
    let (year, month, day) = date;
    let hour = day_seconds / 3_600;
    let minute = (day_seconds % 3_600) / 60;
    let second = day_seconds % 60;
    let mut out = String::new();
    append_vec(&mut out, &zero_padded_vec(year, 4));
    append_vec(&mut out, &zero_padded_vec(month, 2));
    append_vec(&mut out, &zero_padded_vec(day, 2));
    push_char(&mut out, '_');
    append_vec(&mut out, &zero_padded_vec(hour, 2));
    append_vec(&mut out, &zero_padded_vec(minute, 2));
    append_vec(&mut out, &zero_padded_vec(second, 2));
    out
}

/// The UTC timestamp `YYYYMMDD_HHmmss` of a number of seconds since the epoch.
pub fn utc_report_timestamp(seconds: i64) -> (r: String)
    ensures
        r@ == timestamp_spec(seconds as int),
{
    let (days, day_seconds) = split_epoch_seconds(seconds);
    let date = civil_from_days(days);
    format_stamp(date, day_seconds)
}

/// How many report file times, one second apart, are tried for a free name
/// before the next one is used whatever it holds.
pub const REPORT_TIME_TRIES: i64 = 3_600;

/// What choosing a report file time does next.
#[derive(Debug, Clone, Copy, PartialEq, Eq)]
pub enum ReportTimeStep {
    /// Use the name of this time if no file has it yet, else go on.
    Try(i64),
    /// Use the name of this time whatever it holds.
    Take(i64),
}

/// The report file time to look at after `tried` taken ones, counting one
/// second at a time from `base_seconds`: each of the first
/// `REPORT_TIME_TRIES` is tried, and after them the next one is taken.
pub fn report_time_step(base_seconds: i64, tried: i64) -> (r: ReportTimeStep)
    requires
        0 <= tried <= REPORT_TIME_TRIES,
        base_seconds <= i64::MAX - REPORT_TIME_TRIES,
    ensures
        tried < REPORT_TIME_TRIES ==> r == ReportTimeStep::Try((base_seconds + tried) as i64),
        tried == REPORT_TIME_TRIES ==> r == ReportTimeStep::Take((base_seconds + REPORT_TIME_TRIES) as i64),
{
    if tried < REPORT_TIME_TRIES {
        ReportTimeStep::Try(base_seconds + tried)
    } else {
        ReportTimeStep::Take(base_seconds + REPORT_TIME_TRIES)
    }
}


/// Every civil date has a month in 1..=12 and a day in 1..=31.
pub proof fn lemma_civil_ranges(days: int)
    ensures
        1 <= civil_spec(days).1 <= 12,
        1 <= civil_spec(days).2 <= 31,
{
    let z = days + 719468;
    let era = era_of(z);
    let doe = z - era * 146097;
    assert(0 <= doe < 146097) by (nonlinear_arith)
        requires
            doe == z - era * 146097,
            era == z / 146097,
    ;
    let yoe = (doe - doe / 1460 + doe / 36524 - doe / 146096) / 365;
    let doy = doe - (365 * yoe + yoe / 4 - yoe / 100);
    assert(0 <= doy <= 365) by (nonlinear_arith)
        requires
            0 <= doe < 146097,
            yoe == (doe - doe / 1460 + doe / 36524 - doe / 146096) / 365,
            doy == doe - (365 * yoe + yoe / 4 - yoe / 100),
    ;
    let mp = (5 * doy + 2) / 153;
    let d = doy - (153 * mp + 2) / 5 + 1;
    assert(0 <= mp <= 11 && 1 <= d <= 31) by (nonlinear_arith)
        requires
            0 <= doy <= 365,
            mp == (5 * doy + 2) / 153,
            d == doy - (153 * mp + 2) / 5 + 1,
    ;
}

/// The epoch day is 1970-01-01.
pub proof fn lemma_civil_epoch()
    ensures
        civil_spec(0) == (1970int, 1int, 1int),
{
    assert(era_of(719468) == 4);
}

} // verus!
