//! Dates and times as users write them.

use chrono::{NaiveDate, NaiveDateTime};
use vstd::prelude::*;

use crate::error::MarketError;
use crate::text::{digit, precedes};

verus! {

/// Whether a year has a leap day.
pub open spec fn is_leap(year: nat) -> bool {
    year % 4 == 0 && (year % 100 != 0 || year % 400 == 0)
}

/// How many days a year has.
pub open spec fn year_length(year: nat) -> nat {
    if is_leap(year) {
        366
    } else {
        365
    }
}

/// How many days a month has.
pub open spec fn month_length(year: nat, month: nat) -> nat {
    if month == 2 {
        if is_leap(year) {
            29
        } else {
            28
        }
    } else if month == 4 || month == 6 || month == 9 || month == 11 {
        30
    } else {
        31
    }
}

/// How many days there are from the year 0 until a year begins.
pub open spec fn days_before_year(year: nat) -> nat
    decreases year,
{
    if year == 0 {
        0
    } else {
        days_before_year((year - 1) as nat) + year_length((year - 1) as nat)
    }
}

/// How many days of a year there are until a month begins.
pub open spec fn days_before_month(year: nat, month: nat) -> nat
    decreases month,
{
    if month <= 1 {
        0
    } else {
        days_before_month(year, (month - 1) as nat) + month_length(year, (month - 1) as nat)
    }
}

/// A second of a day, in UTC, or numbers in the place of one.
pub struct Moment {
    pub year: nat,
    pub month: nat,
    pub day: nat,
    pub hour: nat,
    pub minute: nat,
    pub second: nat,
}

impl Moment {
    /// Whether the numbers have the room of "YYYY-MM-DD HH:MM:SS".
    pub open spec fn writable(self) -> bool {
        &&& self.year <= 9999
        &&& self.month <= 99
        &&& self.day <= 99
        &&& self.hour <= 99
        &&& self.minute <= 99
        &&& self.second <= 99
    }

    /// Whether the calendar has the day, with a year of at most four digits, and the day
    /// has the second.
    pub open spec fn valid(self) -> bool {
        &&& self.year <= 9999
        &&& 1 <= self.month <= 12
        &&& 1 <= self.day <= month_length(self.year, self.month)
        &&& self.hour < 24
        &&& self.minute < 60
        &&& self.second < 60
    }

    /// Whether it is the first second of its day.
    pub open spec fn is_midnight(self) -> bool {
        self.hour == 0 && self.minute == 0 && self.second == 0
    }

    /// The day as "YYYY-MM-DD".
    pub open spec fn date_text(self) -> Seq<char> {
        let (century, year) = (self.year / 100, self.year % 100);
        seq![
            digit(century / 10),
            digit(century % 10),
            digit(year / 10),
            digit(year % 10),
            '-',
            digit(self.month / 10),
            digit(self.month % 10),
            '-',
            digit(self.day / 10),
            digit(self.day % 10),
        ]
    }

    /// The second as " HH:MM:SS".
    pub open spec fn time_text(self) -> Seq<char> {
        seq![
            ' ',
            digit(self.hour / 10),
            digit(self.hour % 10),
            ':',
            digit(self.minute / 10),
            digit(self.minute % 10),
            ':',
            digit(self.second / 10),
            digit(self.second % 10),
        ]
    }

    /// The moment as "YYYY-MM-DD HH:MM:SS".
    pub open spec fn text(self) -> Seq<char> {
        self.date_text() + self.time_text()
    }

    /// Whether a user writes the moment as `text`: with its time, or, where it is the first
    /// second of its day, by its date alone.
    pub open spec fn written_as(self, text: Seq<char>) -> bool {
        &&& self.writable()
        &&& self.second != 60
        &&& text == self.text() || self.is_midnight() && text == self.date_text()
    }

    /// How many days there are from 1970-01-01 to the day.
    pub open spec fn days(self) -> int {
        days_before_year(self.year) - days_before_year(1970) + days_before_month(
            self.year,
            self.month,
        ) + self.day - 1
    }

    /// The Unix timestamp.
    pub open spec fn timestamp(self) -> int {
        86_400 * self.days() + 3_600 * self.hour + 60 * self.minute + self.second
    }
}

/// The Unix timestamp of the date and time that `text` writes in the format `format`,
/// in UTC, if it writes one.
pub uninterp spec fn datetime_timestamp(text: Seq<char>, format: Seq<char>) -> Option<i64>;

/// The Unix timestamp of the given time of the day that `text` writes in the format
/// `format`, in UTC, if it writes one.
pub uninterp spec fn date_timestamp(
    text: Seq<char>,
    format: Seq<char>,
    hour: u32,
    minute: u32,
    second: u32,
) -> Option<i64>;

/// Whether `r` is what is read of `m`: its timestamp, or nothing where it is no moment.
pub open spec fn read_as(m: Moment, r: Option<i64>) -> bool {
    match r {
        Some(t) => m.valid() && t == m.timestamp(),
        None => !m.valid(),
    }
}

/// Whether `r` is what a reader of "YYYY-MM-DD HH:MM:SS" makes of `text`, where `text` has
/// that form, and nothing where it is "YYYY-MM-DD". Of a leap second nothing is said.
pub open spec fn read_as_datetime(text: Seq<char>, r: Option<i64>) -> bool {
    &&& forall|m: Moment|
        m.writable() && m.second != 60 && text == #[trigger] m.text() ==> read_as(m, r)
    &&& forall|m: Moment| m.writable() && text == #[trigger] m.date_text() ==> r is None
}

/// Whether `r` is what a reader of "YYYY-MM-DD" makes of `text` at the given time of the
/// day, where `text` has that form, and nothing where it is "YYYY-MM-DD HH:MM:SS".
pub open spec fn read_as_date(
    text: Seq<char>,
    hour: u32,
    minute: u32,
    second: u32,
    r: Option<i64>,
) -> bool {
    &&& forall|m: Moment|
        m.writable() && m.hour == hour && m.minute == minute && m.second == second && text
            == #[trigger] m.date_text() ==> read_as(m, r)
    &&& forall|m: Moment| m.writable() && text == #[trigger] m.text() ==> r is None
}

/// Parses a date and time.
///
/// Trusted: `NaiveDateTime::parse_from_str` decides by the text and the format alone;
/// `and_utc().timestamp()` is the same for the same date and time. In the format
/// "%Y-%m-%d %H:%M:%S" it reads "YYYY-MM-DD HH:MM:SS" as the second of the calendar that
/// it writes, and fails where there is no such second or the time is missing. What it
/// makes of leap seconds and of other texts, such as those with blanks or without leading
/// zeros, is left unsaid.
#[verifier::external_body]
fn parse_datetime(text: &str, format: &str) -> (r: Option<i64>)
    ensures
        r == datetime_timestamp(text@, format@),
        format@ == "%Y-%m-%d %H:%M:%S"@ ==> read_as_datetime(text@, r),
{
    NaiveDateTime::parse_from_str(text, format).ok().map(|d| d.and_utc().timestamp())
}

/// Parses a date, and takes a time of that day.
///
/// Trusted: `NaiveDate::parse_from_str` decides by the text and the format alone;
/// `and_hms_opt` accepts the times of a day, and the timestamp counts whole days of
/// 86,400 seconds and then the seconds of the day. In the format "%Y-%m-%d" it reads
/// "YYYY-MM-DD" as the day of the calendar that it writes, and fails where there is no such
/// day or a time follows. What it makes of other texts is left unsaid.
#[verifier::external_body]
fn parse_day(text: &str, format: &str, hour: u32, minute: u32, second: u32) -> (r: Option<i64>)
    requires
        hour < 24,
        minute < 60,
        second < 60,
    ensures
        r == date_timestamp(text@, format@, hour, minute, second),
        r matches Some(t) ==> t as int % 86_400 == 3_600 * hour + 60 * minute + second,
        format@ == "%Y-%m-%d"@ ==> read_as_date(text@, hour, minute, second, r),
{
    let day = NaiveDate::parse_from_str(text, format).ok()?;
    Some(day.and_hms_opt(hour, minute, second).unwrap().and_utc().timestamp())
}

/// The Unix timestamp that a user means by `text`: a date and time, or else a date
/// alone, which is its first second.
pub open spec fn user_timestamp(text: Seq<char>) -> Option<i64> {
    match datetime_timestamp(text, "%Y-%m-%d %H:%M:%S"@) {
        Some(t) => Some(t),
        None => date_timestamp(text, "%Y-%m-%d"@, 0, 0, 0),
    }
}

/// A timestamp as an unsigned number: one before 1970 wraps around.
pub open spec fn unsigned_timestamp(t: int) -> int {
    if t >= 0 {
        t
    } else {
        t + 0x1_0000_0000_0000_0000
    }
}

/// The timestamp that was read from `text`, as an unsigned number, or the error that
/// there was none.
pub fn timestamp_or_error(parsed: Option<i64>, text: &str) -> (r: Result<u64, MarketError>)
    ensures
        match parsed {
            Some(t) => r matches Ok(seconds) && seconds == unsigned_timestamp(t as int),
            None => r matches Err(MarketError::InvalidDate { text: x }) && x@ == text@,
        },
{
    match parsed {
        Some(t) => {
            proof {
                assert(t >= 0 ==> t as u64 == t) by (bit_vector);
                assert(t < 0 ==> t as u64 == t + 0x1_0000_0000_0000_0000) by (bit_vector);
            }
            Ok(t as u64)
        },
        None => Err(MarketError::InvalidDate { text: text.to_owned() }),
    }
}

/// Parse "YYYY-MM-DD HH:MM:SS" (UTC) into a Unix timestamp in seconds.
/// Also accepts the date-only form "YYYY-MM-DD", treating it as 00:00:00 UTC.
pub fn parse_date(s: &str) -> (r: Result<u64, MarketError>)
    ensures
        match user_timestamp(s@) {
            Some(t) => r matches Ok(seconds) && seconds == unsigned_timestamp(t as int),
            None => r matches Err(MarketError::InvalidDate { text }) && text@ == s@,
        },
        r is Ok && datetime_timestamp(s@, "%Y-%m-%d %H:%M:%S"@) is None ==> user_timestamp(
            s@,
        )->0 as int % 86_400 == 0,
        forall|m: Moment| #[trigger]
            m.written_as(s@) ==> match r {
                Ok(seconds) => m.valid() && seconds == unsigned_timestamp(m.timestamp()),
                Err(_) => !m.valid(),
            },
{
    let parsed = match parse_datetime(s, "%Y-%m-%d %H:%M:%S") {
        Some(t) => Some(t),
        None => parse_day(s, "%Y-%m-%d", 0, 0, 0),
    };
    timestamp_or_error(parsed, s)
}

/// What an optional date of a user comes to: its timestamp, or `None` without one.
pub fn parse_optional_date(s: Option<&str>) -> (r: Result<Option<u64>, MarketError>)
    ensures
        match s {
            None => r == Ok::<Option<u64>, MarketError>(None),
            Some(text) => match user_timestamp(text@) {
                Some(t) => r matches Ok(Some(seconds)) && seconds == unsigned_timestamp(t as int),
                None => r matches Err(MarketError::InvalidDate { text: x }) && x@ == text@,
            },
        },
        s matches Some(text) ==> forall|m: Moment| #[trigger]
            m.written_as(text@) ==> match r {
                Ok(Some(seconds)) => m.valid() && seconds == unsigned_timestamp(m.timestamp()),
                Ok(None) => false,
                Err(_) => !m.valid(),
            },
{
    match s {
        None => Ok(None),
        Some(text) => match parse_date(text) {
            Ok(seconds) => Ok(Some(seconds)),
            Err(e) => Err(e),
        },
    }
}

proof fn lemma_year_order(a: nat, b: nat)
    requires
        a < b,
    ensures
        days_before_year(a) + year_length(a) <= days_before_year(b),
    decreases b,
{
    if a + 1 < b {
        lemma_year_order(a, (b - 1) as nat);
    }
}

proof fn lemma_month_order(year: nat, a: nat, b: nat)
    requires
        1 <= a < b,
    ensures
        days_before_month(year, a) + month_length(year, a) <= days_before_month(year, b),
    decreases b,
{
    if a + 1 < b {
        lemma_month_order(year, a, (b - 1) as nat);
    }
}

/// A day lies within its year.
proof fn lemma_day_of_year(m: Moment)
    requires
        m.valid(),
    ensures
        days_before_month(m.year, m.month) + m.day <= year_length(m.year),
{
    lemma_month_order(m.year, m.month, 13);
    reveal_with_fuel(days_before_month, 13);
    assert(days_before_month(m.year, 13) == year_length(m.year));
}

/// "YYYY-MM-DD" and "YYYY-MM-DD 00:00:00" write the same moment: whole days from
/// 1970-01-01, and none before it from the year 1970 on.
pub proof fn a_date_alone_is_midnight(m: Moment)
    requires
        m.valid(),
        m.is_midnight(),
    ensures
        m.written_as(m.date_text()),
        m.written_as(m.date_text() + " 00:00:00"@),
        m.timestamp() == 86_400 * m.days(),
        m.year >= 1970 ==> m.days() >= 0 && unsigned_timestamp(m.timestamp()) == 86_400
            * m.days(),
{
    reveal_strlit(" 00:00:00");
    assert(m.time_text() =~= " 00:00:00"@);
    if m.year > 1970 {
        lemma_year_order(1970, m.year);
    }
}

/// Moments with the same day have timestamps in the order of their seconds, and other
/// moments in the order of their days.
proof fn lemma_timestamp_order(a: Moment, b: Moment)
    requires
        a.valid(),
        b.valid(),
        a.days() < b.days() || a.days() == b.days() && 3_600 * a.hour + 60 * a.minute + a.second
            < 3_600 * b.hour + 60 * b.minute + b.second,
    ensures
        a.timestamp() < b.timestamp(),
{
}

/// Whether the fields of `a` come before those of `b`, the larger units first.
spec fn before(a: Moment, b: Moment) -> bool {
    ||| a.year < b.year
    ||| a.year == b.year && a.month < b.month
    ||| a.year == b.year && a.month == b.month && a.day < b.day
    ||| a.year == b.year && a.month == b.month && a.day == b.day && (3_600 * a.hour + 60 * a.minute
        + a.second < 3_600 * b.hour + 60 * b.minute + b.second)
}

proof fn lemma_before_is_earlier(a: Moment, b: Moment)
    requires
        a.valid(),
        b.valid(),
        before(a, b),
    ensures
        a.timestamp() < b.timestamp(),
{
    lemma_day_of_year(a);
    if a.year < b.year {
        lemma_year_order(a.year, b.year);
    } else if a.month < b.month {
        lemma_month_order(a.year, a.month, b.month);
    }
    lemma_timestamp_order(a, b);
}

/// Two digits are ordered as the numbers that they write.
proof fn lemma_two_digits(a: nat, b: nat)
    requires
        a < 100,
        b < 100,
    ensures
        digit(a / 10) == digit(b / 10) && digit(a % 10) == digit(b % 10) ==> a == b,
        digit(a / 10) < digit(b / 10) ==> a < b,
        digit(a / 10) == digit(b / 10) && digit(a % 10) < digit(b % 10) ==> a < b,
{
}

/// What stands at each place of the text of a moment.
proof fn lemma_places(m: Moment)
    ensures
        m.text().len() == 19,
        m.text()[0] == digit(m.year / 100 / 10),
        m.text()[1] == digit(m.year / 100 % 10),
        m.text()[2] == digit(m.year % 100 / 10),
        m.text()[3] == digit(m.year % 100 % 10),
        m.text()[4] == '-',
        m.text()[5] == digit(m.month / 10),
        m.text()[6] == digit(m.month % 10),
        m.text()[7] == '-',
        m.text()[8] == digit(m.day / 10),
        m.text()[9] == digit(m.day % 10),
        m.text()[10] == ' ',
        m.text()[11] == digit(m.hour / 10),
        m.text()[12] == digit(m.hour % 10),
        m.text()[13] == ':',
        m.text()[14] == digit(m.minute / 10),
        m.text()[15] == digit(m.minute % 10),
        m.text()[16] == ':',
        m.text()[17] == digit(m.second / 10),
        m.text()[18] == digit(m.second % 10),
{
}

/// Where one text precedes another, the moment that it writes is earlier.
pub proof fn earlier_texts_are_earlier(a: Moment, b: Moment)
    requires
        a.valid(),
        b.valid(),
        precedes(a.text(), b.text()),
    ensures
        a.timestamp() < b.timestamp(),
        a.year >= 1970 ==> unsigned_timestamp(a.timestamp()) < unsigned_timestamp(
            b.timestamp(),
        ),
{
    if a.year > 1970 {
        lemma_year_order(1970, a.year);
    }
    let s = a.text();
    let t = b.text();
    let i = choose|i: int|
        0 <= i < s.len() && i < t.len() && s.take(i) == t.take(i) && #[trigger] s[i] < t[i];
    assert forall|j: int| 0 <= j < i implies #[trigger] s[j] == t[j] by {
        assert(s.take(i)[j] == t.take(i)[j]);
    }
    lemma_two_digits(a.year / 100, b.year / 100);
    lemma_two_digits(a.year % 100, b.year % 100);
    lemma_two_digits(a.month, b.month);
    lemma_two_digits(a.day, b.day);
    lemma_two_digits(a.hour, b.hour);
    lemma_two_digits(a.minute, b.minute);
    lemma_two_digits(a.second, b.second);
    lemma_places(a);
    lemma_places(b);
    assert(a.year == 100 * (a.year / 100) + a.year % 100);
    assert(b.year == 100 * (b.year / 100) + b.year % 100);
    if i >= 4 {
        assert(s[0] == t[0] && s[1] == t[1] && s[2] == t[2] && s[3] == t[3]);
    }
    if i >= 7 {
        assert(s[5] == t[5] && s[6] == t[6]);
    }
    if i >= 10 {
        assert(s[8] == t[8] && s[9] == t[9]);
    }
    if i >= 13 {
        assert(s[11] == t[11] && s[12] == t[12]);
    }
    if i >= 16 {
        assert(s[14] == t[14] && s[15] == t[15]);
    }
    assert(before(a, b));
    lemma_before_is_earlier(a, b);
}

/// A timestamp from 1970 on stays as it is; one before it counts down from the largest
/// number.
pub proof fn timestamps_from_1970_stay(t: int)
    requires
        -0x8000_0000_0000_0000 <= t < 0x8000_0000_0000_0000,
    ensures
        0 <= t ==> unsigned_timestamp(t) == t,
        t < 0 ==> unsigned_timestamp(t) - t == u64::MAX + 1,
{
}

/// A text that is a date and time is read as one, and only another is tried as a date
/// alone, at its first second.
pub proof fn dates_with_a_time_come_first(text: Seq<char>)
    ensures
        datetime_timestamp(text, "%Y-%m-%d %H:%M:%S"@) is Some ==> user_timestamp(text)
            == datetime_timestamp(text, "%Y-%m-%d %H:%M:%S"@),
        datetime_timestamp(text, "%Y-%m-%d %H:%M:%S"@) is None ==> user_timestamp(text)
            == date_timestamp(text, "%Y-%m-%d"@, 0, 0, 0),
{
}

/// A moment is a second later than another of the same day by as many seconds as their
/// clocks differ, and a day is 86,400 of them.
pub proof fn clocks_count_seconds(a: Moment, b: Moment)
    requires
        a.year == b.year && a.month == b.month,
    ensures
        b.timestamp() - a.timestamp() == 86_400 * (b.day - a.day) + 3_600 * (b.hour - a.hour) + 60
            * (b.minute - a.minute) + (b.second - a.second),
{
}

/// The first days of two months that follow each other are as far apart as the first of
/// them is long, and so are those of two years.
pub proof fn months_and_years_follow_each_other(a: Moment, b: Moment)
    requires
        1 <= a.month,
        a.day == 1 && b.day == 1,
    ensures
        b.year == a.year && b.month == a.month + 1 ==> b.days() - a.days() == month_length(
            a.year,
            a.month,
        ),
        b.year == a.year + 1 && a.month == 1 && b.month == 1 ==> b.days() - a.days() == (
        if a.year % 4 == 0 && (a.year % 100 != 0 || a.year % 400 == 0) {
            366int
        } else {
            365
        }),
{
}

}
