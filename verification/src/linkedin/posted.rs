//! When a posting was published, from the `<time>` element of its card.
use vstd::prelude::*;

use crate::decimal::{
    decimal, decimal_grows_by_a_digit, parse_signed, signed_value, signs_are_read,
};
use crate::text::{
    contains_text, first_word, first_word_is_the_first_ink, lowercase, lowered, occurs, occurs_at,
    take_first_word, trim, trimmed, trimming_twice_is_trimming_once, white,
};

verus! {

/// What `chrono::DateTime::parse_from_rfc3339` reads, in milliseconds since the epoch.
pub uninterp spec fn rfc3339_millis(s: Seq<char>) -> Option<i64>;

/// What `chrono::NaiveDate::parse_from_str` reads under a format, as the milliseconds since the
/// epoch of that day's midnight in UTC.
pub uninterp spec fn day_millis(s: Seq<char>, format: Seq<char>) -> Option<i64>;

/// `chrono::DateTime::parse_from_rfc3339`: the instant that the text denotes, `None` for its
/// error.
#[verifier::external_body]
fn read_rfc3339(s: &str) -> (r: Option<i64>)
    ensures
        r == rfc3339_millis(s@),
{
    chrono::DateTime::parse_from_rfc3339(s).ok().map(|t| t.timestamp_millis())
}

/// `chrono::NaiveDate::parse_from_str`: the first instant of the day that the text denotes under
/// the format, `None` for its error.
#[verifier::external_body]
fn read_day(s: &str, format: &str) -> (r: Option<i64>)
    ensures
        r == day_millis(s@, format@),
{
    let day = chrono::NaiveDate::parse_from_str(s, format).ok()?;
    day.and_hms_opt(0, 0, 0).map(|t| t.and_utc().timestamp_millis())
}

/// The instant of a `datetime` attribute: a full timestamp, or else a bare date.
pub open spec fn iso_millis(value: Seq<char>) -> Option<i64> {
    match rfc3339_millis(trimmed(value)) {
        Some(ms) => Some(ms),
        None => day_millis(trimmed(value), "%Y-%m-%d"@),
    }
}

/// Reads a `datetime` attribute, which holds the date of the posting itself.
pub fn parse_iso_date(value: &str) -> (r: Option<i64>)
    ensures
        r == iso_millis(value@),
{
    let value: String = trim(value);
    match read_rfc3339(value.as_str()) {
        Some(ms) => Some(ms),
        None => read_day(value.as_str(), "%Y-%m-%d"),
    }
}

// ── "3 days ago" ────────────────────────────────────────────────────────────

/// The first instant of the calendar, January 1 of the year -262143, in milliseconds.
pub const CALENDAR_FIRST_MS: i64 = -8_334_601_228_800_000;

/// The last millisecond of the calendar, December 31 of the year 262142.
pub const CALENDAR_LAST_MS: i64 = 8_210_266_876_799_999;

/// The length in milliseconds of the unit that a text names. The longer stems come first, so
/// that the "m" of "month" does not read as a minute.
pub open spec fn unit_millis(s: Seq<char>) -> Option<int> {
    if occurs(s, "minute"@) || occurs(s, "min"@) {
        Some(60_000int)
    } else if occurs(s, "hour"@) || occurs(s, "hr"@) {
        Some(3_600_000int)
    } else if occurs(s, "day"@) {
        Some(86_400_000int)
    } else if occurs(s, "week"@) {
        Some(604_800_000int)
    } else if occurs(s, "month"@) {
        Some(2_592_000_000int)
    } else if occurs(s, "year"@) {
        Some(31_536_000_000int)
    } else {
        None
    }
}

/// How long ago a text such as "3 days ago" says, in milliseconds.
pub open spec fn age_millis(s: Seq<char>) -> Option<int> {
    match signed_value(first_word(s)) {
        None => None,
        Some(n) => match unit_millis(s) {
            None => None,
            Some(unit) => Some(n * unit),
        },
    }
}

/// Whether an instant lies in the calendar.
pub open spec fn in_calendar(ms: int) -> bool {
    CALENDAR_FIRST_MS <= ms <= CALENDAR_LAST_MS
}

/// The instant that a text names falls outside the calendar.
#[derive(Debug, Clone, Copy, PartialEq, Eq, Structural)]
pub struct OutOfCalendar;

/// How long ago the lower-case text says.
fn read_age(s: &str) -> (r: Option<i128>)
    ensures
        match r {
            Some(ms) => age_millis(s@) == Some(ms as int),
            None => age_millis(s@) is None,
        },
{
    let word: String = take_first_word(s);
    let n: i128 = match parse_signed(word.as_str()) {
        Some(n) => n as i128,
        None => return None,
    };
    if contains_text(s, "minute") || contains_text(s, "min") {
        Some(n * 60_000)
    } else if contains_text(s, "hour") || contains_text(s, "hr") {
        Some(n * 3_600_000)
    } else if contains_text(s, "day") {
        Some(n * 86_400_000)
    } else if contains_text(s, "week") {
        Some(n * 604_800_000)
    } else if contains_text(s, "month") {
        Some(n * 2_592_000_000)
    } else if contains_text(s, "year") {
        Some(n * 31_536_000_000)
    } else {
        None
    }
}

/// The instant that a lower-case text names as seen from `now`, `None` where it names no age.
pub fn relative_time(s: &str, now: i64) -> (r: Option<i64>)
    requires
        age_millis(s@) is Some ==> in_calendar(now - age_millis(s@)->0),
    ensures
        match r {
            Some(ms) => age_millis(s@) is Some && ms == now - age_millis(s@)->0,
            None => age_millis(s@) is None,
        },
{
    match read_age(s) {
        Some(age) => Some((now as i128 - age) as i64),
        None => None,
    }
}

/// The instant that a text such as "1 hour ago" names as seen from `now`. The text is read in
/// lower case. An instant outside the calendar is an error.
pub fn parse_relative_time(text: &str, now: i64) -> (r: Result<Option<i64>, OutOfCalendar>)
    ensures
        match age_millis(lowered(text@)) {
            None => r == Ok::<Option<i64>, OutOfCalendar>(None),
            Some(age) => if in_calendar(now - age) {
                r == Ok::<Option<i64>, OutOfCalendar>(Some((now - age) as i64))
            } else {
                r == Err::<Option<i64>, OutOfCalendar>(OutOfCalendar)
            },
        },
{
    let low: String = lowercase(text);
    match read_age(low.as_str()) {
        None => Ok(None),
        Some(age) => {
            let at: i128 = now as i128 - age;
            if at < CALENDAR_FIRST_MS as i128 || at > CALENDAR_LAST_MS as i128 {
                return Err(OutOfCalendar);
            }
            Ok(relative_time(low.as_str(), now))
        },
    }
}

// ── Laws ────────────────────────────────────────────────────────────────────

/// A date is read as a full timestamp where it is one, and otherwise as a day of year, month and
/// day; the white space round it does not count.
pub proof fn dates_are_read_as_timestamps_first(value: Seq<char>)
    ensures
        rfc3339_millis(trimmed(value)) is Some ==> iso_millis(value) == rfc3339_millis(
            trimmed(value),
        ),
        rfc3339_millis(trimmed(value)) is None ==> iso_millis(value) == day_millis(
            trimmed(value),
            "%Y-%m-%d"@,
        ),
        iso_millis(trimmed(value)) == iso_millis(value),
{
    trimming_twice_is_trimming_once(value);
}

proof fn lemma_absent(n: nat, rest: Seq<char>, needle: Seq<char>, k: int)
    requires
        0 <= k < needle.len(),
        !('0' <= needle[k] <= '9'),
        forall|i: int| 0 <= i < rest.len() ==> #[trigger] rest[i] != needle[k],
        forall|i: int| 0 <= i < decimal(n).len() ==> '0' <= #[trigger] decimal(n)[i] <= '9',
    ensures
        !occurs(decimal(n) + rest, needle),
{
    let hay = decimal(n) + rest;
    if occurs(hay, needle) {
        let at = choose|at: int| occurs_at(hay, needle, at);
        assert(hay.subrange(at, at + needle.len())[k] == hay[at + k]);
        if at + k < decimal(n).len() {
            assert(hay[at + k] == decimal(n)[at + k]);
        } else {
            assert(hay[at + k] == rest[at + k - decimal(n).len()]);
        }
    }
}

proof fn lemma_counted(n: nat, rest: Seq<char>)
    requires
        rest.len() > 0,
        rest[0] == ' ',
        n <= i64::MAX,
    ensures
        signed_value(first_word(decimal(n) + rest)) == Some(n as int),
        forall|i: int| 0 <= i < decimal(n).len() ==> '0' <= #[trigger] decimal(n)[i] <= '9',
{
    let s = decimal(n) + rest;
    decimal_grows_by_a_digit(n, 0);
    signs_are_read(n, 0);
    assert forall|i: int| 0 <= i < decimal(n).len() implies '0' <= #[trigger] decimal(n)[i]
        <= '9' by {
        assert(crate::decimal::is_digit(decimal(n)[i]));
    }
    let r = first_word_is_the_first_ink(s);
    let d = decimal(n).len() as int;
    assert(s[0] == decimal(n)[0]);
    assert(!white(s[0]));
    if r.0 > 0 {
        assert(white(s[0]));
    }
    if r.1 < d {
        assert(s[r.1] == decimal(n)[r.1]);
        assert(white(s[r.1]));
    } else if r.1 > d {
        assert(!white(s[d]));
        assert(s[d] == ' ');
    }
    assert(s.subrange(0, d) =~= decimal(n));
}

/// A text such as "3 minutes ago" says as many minutes as it counts.
pub proof fn minutes_are_counted(n: nat)
    requires
        n <= i64::MAX,
    ensures
        age_millis(decimal(n) + " minutes ago"@) == Some(n as int * 60_000),
{
    let rest = " minutes ago"@;
    let s = decimal(n) + rest;
    let d = decimal(n).len() as int;
    reveal_strlit(" minutes ago");
    reveal_strlit("minute");
    assert(rest =~= seq![' ', 'm', 'i', 'n', 'u', 't', 'e', 's', ' ', 'a', 'g', 'o']);
    lemma_counted(n, rest);
    assert(s.subrange(d + 1, d + 1 + 6) =~= "minute"@);
    assert(occurs_at(s, "minute"@, d + 1));
}

/// A text such as "3 hours ago" says as many hours as it counts.
pub proof fn hours_are_counted(n: nat)
    requires
        n <= i64::MAX,
    ensures
        age_millis(decimal(n) + " hours ago"@) == Some(n as int * 3_600_000),
{
    let rest = " hours ago"@;
    let s = decimal(n) + rest;
    let d = decimal(n).len() as int;
    reveal_strlit(" hours ago");
    reveal_strlit("hour");
    assert(rest =~= seq![' ', 'h', 'o', 'u', 'r', 's', ' ', 'a', 'g', 'o']);
    lemma_counted(n, rest);
    reveal_strlit("minute");
    assert("minute"@[0] == 'm');
    lemma_absent(n, rest, "minute"@, 0);
    reveal_strlit("min");
    assert("min"@[0] == 'm');
    lemma_absent(n, rest, "min"@, 0);
    assert(s.subrange(d + 1, d + 1 + 4) =~= "hour"@);
    assert(occurs_at(s, "hour"@, d + 1));
}

/// A text such as "3 days ago" says as many days as it counts.
pub proof fn days_are_counted(n: nat)
    requires
        n <= i64::MAX,
    ensures
        age_millis(decimal(n) + " days ago"@) == Some(n as int * 86_400_000),
{
    let rest = " days ago"@;
    let s = decimal(n) + rest;
    let d = decimal(n).len() as int;
    reveal_strlit(" days ago");
    reveal_strlit("day");
    assert(rest =~= seq![' ', 'd', 'a', 'y', 's', ' ', 'a', 'g', 'o']);
    lemma_counted(n, rest);
    reveal_strlit("minute");
    assert("minute"@[0] == 'm');
    lemma_absent(n, rest, "minute"@, 0);
    reveal_strlit("min");
    assert("min"@[0] == 'm');
    lemma_absent(n, rest, "min"@, 0);
    reveal_strlit("hour");
    assert("hour"@[0] == 'h');
    lemma_absent(n, rest, "hour"@, 0);
    reveal_strlit("hr");
    assert("hr"@[0] == 'h');
    lemma_absent(n, rest, "hr"@, 0);
    assert(s.subrange(d + 1, d + 1 + 3) =~= "day"@);
    assert(occurs_at(s, "day"@, d + 1));
}

/// A text such as "3 weeks ago" says as many weeks as it counts.
pub proof fn weeks_are_counted(n: nat)
    requires
        n <= i64::MAX,
    ensures
        age_millis(decimal(n) + " weeks ago"@) == Some(n as int * 604_800_000),
{
    let rest = " weeks ago"@;
    let s = decimal(n) + rest;
    let d = decimal(n).len() as int;
    reveal_strlit(" weeks ago");
    reveal_strlit("week");
    assert(rest =~= seq![' ', 'w', 'e', 'e', 'k', 's', ' ', 'a', 'g', 'o']);
    lemma_counted(n, rest);
    reveal_strlit("minute");
    assert("minute"@[0] == 'm');
    lemma_absent(n, rest, "minute"@, 0);
    reveal_strlit("min");
    assert("min"@[0] == 'm');
    lemma_absent(n, rest, "min"@, 0);
    reveal_strlit("hour");
    assert("hour"@[0] == 'h');
    lemma_absent(n, rest, "hour"@, 0);
    reveal_strlit("hr");
    assert("hr"@[0] == 'h');
    lemma_absent(n, rest, "hr"@, 0);
    reveal_strlit("day");
    assert("day"@[0] == 'd');
    lemma_absent(n, rest, "day"@, 0);
    assert(s.subrange(d + 1, d + 1 + 4) =~= "week"@);
    assert(occurs_at(s, "week"@, d + 1));
}

/// A text such as "3 months ago" says as many months as it counts.
pub proof fn months_are_counted(n: nat)
    requires
        n <= i64::MAX,
    ensures
        age_millis(decimal(n) + " months ago"@) == Some(n as int * 2_592_000_000),
{
    let rest = " months ago"@;
    let s = decimal(n) + rest;
    let d = decimal(n).len() as int;
    reveal_strlit(" months ago");
    reveal_strlit("month");
    assert(rest =~= seq![' ', 'm', 'o', 'n', 't', 'h', 's', ' ', 'a', 'g', 'o']);
    lemma_counted(n, rest);
    reveal_strlit("minute");
    assert("minute"@[1] == 'i');
    lemma_absent(n, rest, "minute"@, 1);
    reveal_strlit("min");
    assert("min"@[1] == 'i');
    lemma_absent(n, rest, "min"@, 1);
    reveal_strlit("hour");
    assert("hour"@[2] == 'u');
    lemma_absent(n, rest, "hour"@, 2);
    reveal_strlit("hr");
    assert("hr"@[1] == 'r');
    lemma_absent(n, rest, "hr"@, 1);
    reveal_strlit("day");
    assert("day"@[0] == 'd');
    lemma_absent(n, rest, "day"@, 0);
    reveal_strlit("week");
    assert("week"@[0] == 'w');
    lemma_absent(n, rest, "week"@, 0);
    assert(s.subrange(d + 1, d + 1 + 5) =~= "month"@);
    assert(occurs_at(s, "month"@, d + 1));
}

/// A text such as "3 years ago" says as many years as it counts.
pub proof fn years_are_counted(n: nat)
    requires
        n <= i64::MAX,
    ensures
        age_millis(decimal(n) + " years ago"@) == Some(n as int * 31_536_000_000),
{
    let rest = " years ago"@;
    let s = decimal(n) + rest;
    let d = decimal(n).len() as int;
    reveal_strlit(" years ago");
    reveal_strlit("year");
    assert(rest =~= seq![' ', 'y', 'e', 'a', 'r', 's', ' ', 'a', 'g', 'o']);
    lemma_counted(n, rest);
    reveal_strlit("minute");
    assert("minute"@[0] == 'm');
    lemma_absent(n, rest, "minute"@, 0);
    reveal_strlit("min");
    assert("min"@[0] == 'm');
    lemma_absent(n, rest, "min"@, 0);
    reveal_strlit("hour");
    assert("hour"@[0] == 'h');
    lemma_absent(n, rest, "hour"@, 0);
    reveal_strlit("hr");
    assert("hr"@[0] == 'h');
    lemma_absent(n, rest, "hr"@, 0);
    reveal_strlit("day");
    assert("day"@[0] == 'd');
    lemma_absent(n, rest, "day"@, 0);
    reveal_strlit("week");
    assert("week"@[0] == 'w');
    lemma_absent(n, rest, "week"@, 0);
    reveal_strlit("month");
    assert("month"@[0] == 'm');
    lemma_absent(n, rest, "month"@, 0);
    assert(s.subrange(d + 1, d + 1 + 4) =~= "year"@);
    assert(occurs_at(s, "year"@, d + 1));
}

/// A text that does not begin with a number says no age, and neither does one without a unit.
pub proof fn other_texts_say_no_age(s: Seq<char>)
    ensures
        signed_value(first_word(s)) is None ==> age_millis(s) is None,
        !occurs(s, "min"@) && !occurs(s, "minute"@) && !occurs(s, "hour"@) && !occurs(s, "hr"@)
            && !occurs(s, "day"@) && !occurs(s, "week"@) && !occurs(s, "month"@) && !occurs(
            s,
            "year"@,
        ) ==> age_millis(s) is None,
{
}

/// The unit of an age is told by its stem, in whatever form: a text with `min` counts minutes, one
/// with `hour` or `hr` hours, and so on up to years; the shorter unit counts where there are two.
pub proof fn units_are_told_by_their_stems(s: Seq<char>, n: int)
    requires
        signed_value(first_word(s)) == Some(n),
    ensures
        ({
            let minutes = occurs(s, "min"@) || occurs(s, "minute"@);
            let hours = occurs(s, "hour"@) || occurs(s, "hr"@);
            let days = occurs(s, "day"@);
            let weeks = occurs(s, "week"@);
            let months = occurs(s, "month"@);
            let years = occurs(s, "year"@);
            let minute: int = 60_000;
            let hour: int = 60 * minute;
            let day: int = 24 * hour;
            &&& minutes ==> age_millis(s) == Some(n * minute)
            &&& !minutes && hours ==> age_millis(s) == Some(n * hour)
            &&& !minutes && !hours && days ==> age_millis(s) == Some(n * day)
            &&& !minutes && !hours && !days && weeks ==> age_millis(s) == Some(n * (7 * day))
            &&& !minutes && !hours && !days && !weeks && months ==> age_millis(s) == Some(
                n * (30 * day),
            )
            &&& !minutes && !hours && !days && !weeks && !months && years ==> age_millis(s)
                == Some(n * (365 * day))
        }),
{
}

} // verus!
