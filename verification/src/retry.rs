//! What happens when a job fails: whether it is tried again, and when.

use vstd::prelude::*;
use vstd::arithmetic::div_mod::lemma_fundamental_div_mod_converse;
use vstd::arithmetic::power2::{lemma2_to64, pow2};

use crate::text::{decimal_value, is_decimal_digit};

verus! {

/// How many attempts a job gets before it is marked failed.
pub const MAX_IMPORT_ATTEMPTS: i64 = 3;

/// The wait before the first retry; each further retry waits twice as long.
pub const RETRY_BASE_DELAY_SECONDS: i64 = 15;

/// A failed job is tried again while it has had fewer than the maximum
/// number of attempts.
pub open spec fn retries(attempt_count: int) -> bool {
    attempt_count < MAX_IMPORT_ATTEMPTS
}

/// The attempt count clamped to the range from 1 to the maximum.
pub open spec fn bounded_attempt(attempt_count: int) -> int {
    if attempt_count < 1 {
        1
    } else if attempt_count > MAX_IMPORT_ATTEMPTS {
        MAX_IMPORT_ATTEMPTS as int
    } else {
        attempt_count
    }
}

/// The wait before the next attempt: the base delay doubled once for every
/// attempt after the first.
pub open spec fn retry_delay(attempt_count: int) -> int {
    RETRY_BASE_DELAY_SECONDS * pow2((bounded_attempt(attempt_count) - 1) as nat)
}

/// The text, in the form `YYYY-MM-DDTHH:MM:SSZ`, that chrono gives the UTC
/// moment `unix_seconds` seconds after the Unix epoch, or `None` where chrono
/// has no such moment.
pub uninterp spec fn utc_timestamp_text(unix_seconds: i64) -> Option<Seq<char>>;

/// Whether `year` is a leap year of the Gregorian calendar.
pub open spec fn is_leap_year(year: int) -> bool {
    (year % 4 == 0 && year % 100 != 0) || year % 400 == 0
}

/// The number of days of a month of the Gregorian calendar.
pub open spec fn days_in_month(year: int, month: int) -> int {
    if month == 2 {
        if is_leap_year(year) {
            29
        } else {
            28
        }
    } else if month == 4 || month == 6 || month == 9 || month == 11 {
        30
    } else {
        31
    }
}

/// How many leap years there are from the year 1 to `year`.
pub open spec fn leap_years_through(year: int) -> int {
    year / 4 - year / 100 + year / 400
}

/// Days from 1 January 1970 to 1 January of `year`.
pub open spec fn days_before_year(year: int) -> int {
    365 * (year - 1970) + leap_years_through(year - 1) - leap_years_through(1969)
}

/// Days from 1 January of `year` to the first day of `month`.
pub open spec fn days_before_month(year: int, month: int) -> int {
    let common = if month == 1 {
        0int
    } else if month == 2 {
        31
    } else if month == 3 {
        59
    } else if month == 4 {
        90
    } else if month == 5 {
        120
    } else if month == 6 {
        151
    } else if month == 7 {
        181
    } else if month == 8 {
        212
    } else if month == 9 {
        243
    } else if month == 10 {
        273
    } else if month == 11 {
        304
    } else {
        334
    };
    common + if month > 2 && is_leap_year(year) {
        1int
    } else {
        0int
    }
}

/// Days from 1 January 1970 to the given date.
pub open spec fn day_number(year: int, month: int, day: int) -> int {
    days_before_year(year) + days_before_month(year, month) + day - 1
}

/// The number written with the `len` decimal digits of `text` from `start`.
pub open spec fn field(text: Seq<char>, start: int, len: int) -> int {
    decimal_value(text.subrange(start, start + len))
}

/// Whether `text` reads `YYYY-MM-DDTHH:MM:SSZ` and names the UTC moment
/// `unix_seconds` seconds after the epoch: a valid Gregorian date and a time
/// of day whose count of seconds since 1970-01-01T00:00:00Z is
/// `unix_seconds`.
pub open spec fn names_utc_moment(text: Seq<char>, unix_seconds: int) -> bool {
    let year = field(text, 0, 4);
    let month = field(text, 5, 2);
    let day = field(text, 8, 2);
    let hour = field(text, 11, 2);
    let minute = field(text, 14, 2);
    let second = field(text, 17, 2);
    &&& text.len() == 20
    &&& text[4] == '-' && text[7] == '-' && text[10] == 'T'
    &&& text[13] == ':' && text[16] == ':' && text[19] == 'Z'
    &&& forall|k: int|
        0 <= k < 20 && k != 4 && k != 7 && k != 10 && k != 13 && k != 16 && k != 19
            ==> is_decimal_digit(#[trigger] text[k])
    &&& 1 <= month <= 12
    &&& 1 <= day <= days_in_month(year, month)
    &&& 0 <= hour < 24 && 0 <= minute < 60 && 0 <= second < 60
    &&& day_number(year, month, day) * 86400 + hour * 3600 + minute * 60 + second == unix_seconds
}

/// The last second that chrono can format as a four-digit year: the end of
/// 9999-12-31 in UTC.
pub const LAST_FOUR_DIGIT_YEAR_SECOND: i64 = 253402300799;

/// Calls `chrono::DateTime::<Utc>::from_timestamp(unix_seconds, 0)` and
/// formats the moment with `%Y-%m-%dT%H:%M:%SZ`. Trusted: that the result is
/// the value the name `utc_timestamp_text` gives these seconds, so that it
/// depends on them alone, and that for every second from the epoch to the end
/// of the year 9999 (chrono's range reaches far beyond it) chrono has the
/// moment and writes it, as its `%Y %m %d %H %M %S` fields document, as the
/// four-digit Gregorian date and the time of day of that second in UTC.
/// Outside that range nothing is claimed of the text.
#[verifier::external_body]
fn format_utc_timestamp(unix_seconds: i64) -> (r: Option<String>)
    ensures
        r.deep_view() == utc_timestamp_text(unix_seconds),
        0 <= unix_seconds <= LAST_FOUR_DIGIT_YEAR_SECOND ==> r is Some && names_utc_moment(
            r.deep_view().unwrap(),
            unix_seconds as int,
        ),
{
    match chrono::DateTime::from_timestamp(unix_seconds, 0) {
        Some(moment) => Some(moment.format("%Y-%m-%dT%H:%M:%SZ").to_string()),
        None => None,
    }
}

/// Whether a job that failed after `attempt_count` attempts is tried again.
pub fn retry_allowed(attempt_count: i64) -> (r: bool)
    ensures
        r == retries(attempt_count as int),
{
    attempt_count < MAX_IMPORT_ATTEMPTS
}

/// The wait in seconds before retrying a job that has had `attempt_count`
/// attempts: 15, 30 or 60 seconds.
pub fn retry_delay_seconds(attempt_count: i64) -> (r: i64)
    ensures
        r == retry_delay(attempt_count as int),
{
    let bounded: i64 = if attempt_count < 1 {
        1
    } else if attempt_count > MAX_IMPORT_ATTEMPTS {
        MAX_IMPORT_ATTEMPTS
    } else {
        attempt_count
    };
    let shift: i64 = bounded - 1;
    proof {
        lemma2_to64();
        if shift == 0 {
            assert(1i64 << 0i64 == 1i64) by (bit_vector);
        } else if shift == 1 {
            assert(1i64 << 1i64 == 2i64) by (bit_vector);
        } else {
            assert(1i64 << 2i64 == 4i64) by (bit_vector);
        }
    }
    RETRY_BASE_DELAY_SECONDS * (1i64 << shift)
}

/// When a job that has had `attempt_count` attempts may be retried, given
/// the current time in whole seconds since the Unix epoch; `None` where that
/// moment cannot be represented.
pub fn compute_next_retry_timestamp(now_unix_seconds: i64, attempt_count: i64) -> (r: Option<String>)
    ensures
        now_unix_seconds + retry_delay(attempt_count as int) <= i64::MAX ==> r.deep_view()
            == utc_timestamp_text((now_unix_seconds + retry_delay(attempt_count as int)) as i64),
        now_unix_seconds + retry_delay(attempt_count as int) > i64::MAX ==> r is None,
        0 <= now_unix_seconds + retry_delay(attempt_count as int) <= LAST_FOUR_DIGIT_YEAR_SECOND
            ==> (r matches Some(text) && names_utc_moment(
            text@,
            now_unix_seconds + retry_delay(attempt_count as int),
        )),
{
    let delay = retry_delay_seconds(attempt_count);
    match now_unix_seconds.checked_add(delay) {
        Some(at) => format_utc_timestamp(at),
        None => None,
    }
}

/// What is recorded for a job whose attempt failed.
#[derive(Debug, Clone, PartialEq, Eq)]
pub enum FailureUpdate {
    /// The job waits and is tried again at the given time.
    Retry { next_retry_at: String },
    /// The job has used up its attempts.
    Failed,
}

/// Decides what to record for a job that failed after `attempt_count`
/// attempts, at `now_unix_seconds`: a retry at the computed time while
/// attempts remain, the failure otherwise; `None` where attempts remain but
/// the retry time cannot be represented.
pub fn plan_job_failure(now_unix_seconds: i64, attempt_count: i64) -> (r: Option<FailureUpdate>)
    ensures
        !retries(attempt_count as int) ==> r == Some(FailureUpdate::Failed),
        retries(attempt_count as int) ==> match r {
            Some(FailureUpdate::Retry { next_retry_at }) => {
                &&& now_unix_seconds + retry_delay(attempt_count as int) <= i64::MAX
                &&& utc_timestamp_text(
                    (now_unix_seconds + retry_delay(attempt_count as int)) as i64,
                ) == Some(next_retry_at@)
            },
            Some(FailureUpdate::Failed) => false,
            None => now_unix_seconds + retry_delay(attempt_count as int) > i64::MAX
                || utc_timestamp_text(
                (now_unix_seconds + retry_delay(attempt_count as int)) as i64,
            ) is None,
        },
        retries(attempt_count as int) && 0 <= now_unix_seconds + retry_delay(attempt_count as int)
            <= LAST_FOUR_DIGIT_YEAR_SECOND ==> (r matches Some(FailureUpdate::Retry { next_retry_at })
            && names_utc_moment(
            next_retry_at@,
            now_unix_seconds + retry_delay(attempt_count as int),
        )),
{
    if retry_allowed(attempt_count) {
        match compute_next_retry_timestamp(now_unix_seconds, attempt_count) {
            Some(next_retry_at) => Some(FailureUpdate::Retry { next_retry_at }),
            None => None,
        }
    } else {
        Some(FailureUpdate::Failed)
    }
}

/// A text that names a moment gives that moment back: its date is the day
/// `s / 86400` after 1 January 1970 and its time of day is `s % 86400`
/// seconds after midnight, so no text names two moments and a text shifted
/// by an hour names another moment.
pub proof fn lemma_utc_text_fields(text: Seq<char>, s: int, other: int)
    requires
        names_utc_moment(text, s),
    ensures
        ({
            let hour = field(text, 11, 2);
            let minute = field(text, 14, 2);
            let second = field(text, 17, 2);
            &&& hour * 3600 + minute * 60 + second == s % 86400
            &&& day_number(field(text, 0, 4), field(text, 5, 2), field(text, 8, 2)) == s / 86400
        }),
        names_utc_moment(text, other) ==> other == s,
{
    let hour = field(text, 11, 2);
    let minute = field(text, 14, 2);
    let second = field(text, 17, 2);
    let days = day_number(field(text, 0, 4), field(text, 5, 2), field(text, 8, 2));
    lemma_fundamental_div_mod_converse(s, 86400, days, hour * 3600 + minute * 60 + second);
}

/// The delay stays between the base delay and four times it, grows with the
/// attempt count, and does not change past the maximum number of attempts.
pub proof fn lemma_retry_delay_bounds(a: int, b: int)
    ensures
        RETRY_BASE_DELAY_SECONDS <= retry_delay(a) <= 4 * RETRY_BASE_DELAY_SECONDS,
        a <= b ==> retry_delay(a) <= retry_delay(b),
        a >= MAX_IMPORT_ATTEMPTS ==> retry_delay(a) == 4 * RETRY_BASE_DELAY_SECONDS,
        a <= 1 ==> retry_delay(a) == RETRY_BASE_DELAY_SECONDS,
{
    lemma2_to64();
}

} // verus!
