//! Local time as text: the names of recordings, `recording-YYYYMMDD-HHMMSS`
//! with the extension of the format that the recording is written in, and
//! the times of files in ISO 8601.

use crate::encoder::{extension_of_format, OutputFormat};
use crate::text::{
    decimal, has_prefix, has_suffix, is_digit, lemma_padded_len, lex_less, padded, push_decimal,
    push_padded,
};
use chrono::Datelike;
use chrono::Timelike;
use vstd::prelude::*;

verus! {

/// A date and a time of day, to the second.
#[derive(Debug, Clone, Copy, PartialEq, Eq, Structural)]
pub struct Timestamp {
    pub year: i32,
    pub month: u32,
    pub day: u32,
    pub hour: u32,
    pub minute: u32,
    pub second: u32,
}

impl Timestamp {
    /// Whether the fields are in the ranges of a calendar and a clock.
    pub open spec fn wf(self) -> bool {
        &&& 1 <= self.month <= 12
        &&& 1 <= self.day <= 31
        &&& self.hour <= 23
        &&& self.minute <= 59
        &&& self.second <= 59
    }

    /// Whether the year is written with four digits and no sign.
    pub open spec fn four_digit_year(self) -> bool {
        0 <= self.year <= 9999
    }

    /// Whether `self` is an earlier moment than `other`.
    pub open spec fn before(self, other: Timestamp) -> bool {
        if self.year != other.year {
            self.year < other.year
        } else if self.month != other.month {
            self.month < other.month
        } else if self.day != other.day {
            self.day < other.day
        } else if self.hour != other.hour {
            self.hour < other.hour
        } else if self.minute != other.minute {
            self.minute < other.minute
        } else {
            self.second < other.second
        }
    }

    /// This moment, by the local clock.
    pub fn now() -> (t: Timestamp)
        ensures
            t.wf(),
    {
        local_now()
    }

    /// The timestamp with these fields, if they are in range.
    pub fn new(year: i32, month: u32, day: u32, hour: u32, minute: u32, second: u32) -> (r: Option<
        Timestamp,
    >)
        ensures
            r == (if (Timestamp { year, month, day, hour, minute, second }).wf() {
                Some(Timestamp { year, month, day, hour, minute, second })
            } else {
                None
            }),
    {
        if 1 <= month && month <= 12 && 1 <= day && day <= 31 && hour <= 23 && minute <= 59
            && second <= 59 {
            Some(Timestamp { year, month, day, hour, minute, second })
        } else {
            None
        }
    }
}

/// The local date and time of this moment, from `chrono::Local::now` and the
/// accessors of `Datelike` and `Timelike`, which keep the month within 1 to
/// 12, the day within 1 to 31, the hour within 0 to 23, and the minute and
/// the second within 0 to 59.
#[verifier::external_body]
fn local_now() -> (t: Timestamp)
    ensures
        t.wf(),
{
    let now = chrono::Local::now();
    Timestamp {
        year: now.year(),
        month: now.month(),
        day: now.day(),
        hour: now.hour(),
        minute: now.minute(),
        second: now.second(),
    }
}

/// The latest time of a file that is shown as it is, in seconds since the
/// start of 1970: the last second of the year 9999 (UTC).
pub const MAX_FILE_TIME: u64 = 253_402_300_799;

/// The date and the time of day that `chrono` gives to the moment `secs`
/// seconds after the start of 1970, on the calendar and the clock of UTC:
/// what the accessors of `Datelike` and `Timelike` tell of
/// `DateTime::from_timestamp(secs, 0)`.
pub uninterp spec fn civil_time(secs: int) -> Timestamp;

/// The local date and time of the moment `secs` seconds after the start of
/// 1970 (UTC), and how many seconds local time is ahead of UTC at that
/// moment: from `DateTime::from_timestamp` and `with_timezone(&Local)` of
/// `chrono`, the accessors of `Datelike` and `Timelike`, and
/// `offset().local_minus_utc()`.  Which offset holds is for the machine's
/// time zone to say; it is less than a day either way.  The local date and
/// time are those that UTC has that many seconds later, and the accessors
/// keep to the ranges of a calendar and a clock.
#[verifier::external_body]
fn local_time_of(secs: i64) -> (r: (Timestamp, i32))
    requires
        0 <= secs <= MAX_FILE_TIME,
    ensures
        r.0 == civil_time(secs + r.1),
        r.0.wf(),
        -86_400 < r.1 < 86_400,
{
    let at = chrono::DateTime::from_timestamp(secs, 0).unwrap_or_default().with_timezone(
        &chrono::Local,
    );
    let stamp = Timestamp {
        year: at.year(),
        month: at.month(),
        day: at.day(),
        hour: at.hour(),
        minute: at.minute(),
        second: at.second(),
    };
    (stamp, at.offset().local_minus_utc())
}

/// A year as text: four digits for the years 0 to 9999; every other year
/// with its sign and at least four digits.
pub open spec fn year_text(year: int) -> Seq<char> {
    if 0 <= year <= 9999 {
        padded(year as nat, 4)
    } else if year > 9999 {
        seq!['+'] + decimal(year as nat)
    } else if year > -10000 {
        seq!['-'] + padded((-year) as nat, 4)
    } else {
        seq!['-'] + decimal((-year) as nat)
    }
}

/// The date as `YYYYMMDD`.
pub open spec fn date_text(t: Timestamp) -> Seq<char> {
    year_text(t.year as int) + padded(t.month as nat, 2) + padded(t.day as nat, 2)
}

/// The time of day as `HHMMSS`.
pub open spec fn time_text(t: Timestamp) -> Seq<char> {
    padded(t.hour as nat, 2) + padded(t.minute as nat, 2) + padded(t.second as nat, 2)
}

/// An offset from UTC as text: its sign, then hours and minutes with two
/// digits each, the seconds rounded to the nearest minute.
pub open spec fn offset_text(offset: int) -> Seq<char> {
    let ahead = if offset < 0 {
        -offset
    } else {
        offset
    };
    let minutes = (ahead + 30) / 60;
    seq![if offset < 0 {
        '-'
    } else {
        '+'
    }] + padded((minutes / 60) as nat, 2) + padded((minutes % 60) as nat, 2)
}

/// A moment of local time in ISO 8601: `YYYY-MM-DDTHH:MM:SS` and the offset
/// from UTC.
pub open spec fn iso_text(t: Timestamp, offset: int) -> Seq<char> {
    year_text(t.year as int) + seq!['-'] + padded(t.month as nat, 2) + seq!['-'] + padded(
        t.day as nat,
        2,
    ) + seq!['T'] + padded(t.hour as nat, 2) + seq![':'] + padded(t.minute as nat, 2) + seq![':']
        + padded(t.second as nat, 2) + offset_text(offset)
}

/// The name of the recording that starts at `t`, with the extension `ext`.
pub open spec fn recording_name(t: Timestamp, ext: Seq<char>) -> Seq<char> {
    "recording-"@ + date_text(t) + seq!['-'] + time_text(t) + seq!['.'] + ext
}

/// Whether `name` has the form `recording-` eight digits `-` six digits
/// `.` `ext`.
pub open spec fn is_recording_name(name: Seq<char>, ext: Seq<char>) -> bool {
    &&& name.len() == 26 + ext.len()
    &&& has_prefix(name, "recording-"@)
    &&& forall|i: int| 10 <= i < 18 ==> is_digit(#[trigger] name[i])
    &&& name[18] == '-'
    &&& forall|i: int| 19 <= i < 25 ==> is_digit(#[trigger] name[i])
    &&& name[25] == '.'
    &&& has_suffix(name, ext)
}

fn push_year(out: &mut String, year: i32)
    ensures
        final(out)@ == old(out)@ + year_text(year as int),
{
    let ghost start = out@;
    if 0 <= year && year <= 9999 {
        push_padded(out, year as u32, 4);
    } else if year > 9999 {
        out.push('+');
        push_decimal(out, year as u64);
        assert(out@ =~= start + (seq!['+'] + decimal(year as nat)));
    } else if year > -10000 {
        out.push('-');
        push_padded(out, (-year) as u32, 4);
        assert(out@ =~= start + (seq!['-'] + padded((-year) as nat, 4)));
    } else {
        out.push('-');
        let magnitude: i64 = -(year as i64);
        push_decimal(out, magnitude as u64);
        assert(out@ =~= start + (seq!['-'] + decimal((-year) as nat)));
    }
}

/// The name of the recording that starts at `t` and is written in `format`.
pub fn recording_name_at(t: &Timestamp, format: OutputFormat) -> (name: String)
    ensures
        name@ == recording_name(*t, extension_of_format(format)),
{
    let mut name = String::from_str("recording-");
    push_year(&mut name, t.year);
    push_padded(&mut name, t.month, 2);
    push_padded(&mut name, t.day, 2);
    assert(name@ =~= "recording-"@ + date_text(*t));
    name.push('-');
    push_padded(&mut name, t.hour, 2);
    push_padded(&mut name, t.minute, 2);
    push_padded(&mut name, t.second, 2);
    assert(name@ =~= "recording-"@ + date_text(*t) + seq!['-'] + time_text(*t));
    name.push('.');
    name.append(format.extension());
    name
}

/// Writes a moment of local time in ISO 8601.  `offset_seconds` tells how
/// many seconds local time is ahead of UTC.
pub fn iso_time_text(t: &Timestamp, offset_seconds: i32) -> (text: String)
    ensures
        text@ == iso_text(*t, offset_seconds as int),
{
    let mut text = String::new();
    push_year(&mut text, t.year);
    text.push('-');
    push_padded(&mut text, t.month, 2);
    text.push('-');
    push_padded(&mut text, t.day, 2);
    text.push('T');
    push_padded(&mut text, t.hour, 2);
    text.push(':');
    push_padded(&mut text, t.minute, 2);
    text.push(':');
    push_padded(&mut text, t.second, 2);
    let ghost front = text@;
    assert(front =~= year_text(t.year as int) + seq!['-'] + padded(t.month as nat, 2) + seq!['-']
        + padded(t.day as nat, 2) + seq!['T'] + padded(t.hour as nat, 2) + seq![':'] + padded(
        t.minute as nat,
        2,
    ) + seq![':'] + padded(t.second as nat, 2));
    let ahead: i64 = if offset_seconds < 0 {
        -(offset_seconds as i64)
    } else {
        offset_seconds as i64
    };
    let minutes: i64 = (ahead + 30) / 60;
    if offset_seconds < 0 {
        text.push('-');
    } else {
        text.push('+');
    }
    push_padded(&mut text, (minutes / 60) as u32, 2);
    push_padded(&mut text, (minutes % 60) as u32, 2);
    assert(text@ =~= front + offset_text(offset_seconds as int));
    text
}

/// The moment that is shown for a file that was written `secs` seconds
/// after the start of 1970: that moment, or the start of 1970 for a time
/// after the year 9999.
pub open spec fn shown_time(secs: u64) -> int {
    if secs > MAX_FILE_TIME {
        0
    } else {
        secs as int
    }
}

/// The time of a file in ISO 8601, in a time zone that is `offset` seconds
/// ahead of UTC at that time.
pub open spec fn file_time(secs: u64, offset: int) -> Seq<char> {
    iso_text(civil_time(shown_time(secs) + offset), offset)
}

/// Whether `text` is the time of a file that was written `secs` seconds
/// after the start of 1970, in local time: in some time zone that is less
/// than a day ahead of UTC or behind it.
pub open spec fn is_file_time(text: Seq<char>, secs: u64) -> bool {
    exists|offset: int|
        -86_400 < offset < 86_400 && civil_time(shown_time(secs) + offset).wf() && text
            == #[trigger] file_time(secs, offset)
}

/// The time of a file as text: the local time of the moment `secs` seconds
/// after the start of 1970, in ISO 8601.  A time after the year 9999 is
/// taken for the start of 1970.
pub fn file_time_text(secs: u64) -> (text: String)
    ensures
        is_file_time(text@, secs),
{
    let shown: i64 = if secs > MAX_FILE_TIME {
        0
    } else {
        secs as i64
    };
    let (stamp, offset) = local_time_of(shown);
    let text = iso_time_text(&stamp, offset);
    assert(text@ == file_time(secs, offset as int));
    text
}

/// The name for an MP3 recording that starts now, by the local clock.
pub fn generate_filename() -> (name: String)
    ensures
        exists|t: Timestamp| t.wf() && name@ == recording_name(t, "mp3"@),
{
    let now = Timestamp::now();
    recording_name_at(&now, OutputFormat::Mp3)
}

// ---------------------------------------------------------------------------
// Laws
// ---------------------------------------------------------------------------

/// With a year of four digits the name has the form `recording-` eight
/// digits `-` six digits `.` extension.
pub proof fn lemma_name_form(t: Timestamp, ext: Seq<char>)
    requires
        t.four_digit_year(),
    ensures
        is_recording_name(recording_name(t, ext), ext),
{
    reveal_strlit("recording-");
    lemma_padded_len(t.year as nat, 4);
    lemma_padded_len(t.month as nat, 2);
    lemma_padded_len(t.day as nat, 2);
    lemma_padded_len(t.hour as nat, 2);
    lemma_padded_len(t.minute as nat, 2);
    lemma_padded_len(t.second as nat, 2);
    let name = recording_name(t, ext);
    let y = padded(t.year as nat, 4);
    let mo = padded(t.month as nat, 2);
    let d = padded(t.day as nat, 2);
    let h = padded(t.hour as nat, 2);
    let mi = padded(t.minute as nat, 2);
    let s = padded(t.second as nat, 2);
    assert(name.len() == 26 + ext.len());
    assert(name.subrange(0, 10) =~= "recording-"@);
    assert(name.subrange(26, name.len() as int) =~= ext);
    assert(name[25] == '.');
    assert forall|i: int| 10 <= i < 18 implies is_digit(#[trigger] name[i]) by {
        if i < 14 {
            assert(name[i] == y[i - 10]);
        } else if i < 16 {
            assert(name[i] == mo[i - 14]);
        } else {
            assert(name[i] == d[i - 16]);
        }
    }
    assert forall|i: int| 19 <= i < 25 implies is_digit(#[trigger] name[i]) by {
        if i < 21 {
            assert(name[i] == h[i - 19]);
        } else if i < 23 {
            assert(name[i] == mi[i - 21]);
        } else {
            assert(name[i] == s[i - 23]);
        }
    }
    assert(name[18] == '-');
}

/// Ten to the power `w`.
pub open spec fn pow10(w: nat) -> nat
    decreases w,
{
    if w == 0 {
        1
    } else {
        10 * pow10((w - 1) as nat)
    }
}

/// The order of strings looks past what two strings have in common at their
/// start.
pub proof fn lemma_lex_common_prefix(p: Seq<char>, x: Seq<char>, y: Seq<char>)
    ensures
        lex_less(p + x, p + y) == lex_less(x, y),
    decreases p.len(),
{
    if p.len() == 0 {
        assert(p + x =~= x);
        assert(p + y =~= y);
    } else {
        let a = p + x;
        let b = p + y;
        assert(a[0] == b[0]);
        assert(a.skip(1) =~= p.skip(1) + x);
        assert(b.skip(1) =~= p.skip(1) + y);
        lemma_lex_common_prefix(p.skip(1), x, y);
    }
}

/// Numbers written with the same number of digits are ordered as strings
/// the way they are ordered as numbers, whatever follows them.
pub proof fn lemma_padded_order(a: nat, b: nat, w: nat, r1: Seq<char>, r2: Seq<char>)
    requires
        a < b < pow10(w),
    ensures
        lex_less(padded(a, w) + r1, padded(b, w) + r2),
    decreases w,
{
    assert(w > 0);
    let da = crate::text::digit_char((a % 10) as int);
    let db = crate::text::digit_char((b % 10) as int);
    let t1 = seq![da] + r1;
    let t2 = seq![db] + r2;
    let v = (w - 1) as nat;
    assert(padded(a, w) + r1 =~= padded(a / 10, v) + t1);
    assert(padded(b, w) + r2 =~= padded(b / 10, v) + t2);
    if a / 10 < b / 10 {
        lemma_padded_order(a / 10, b / 10, v, t1, t2);
    } else {
        assert(a / 10 == b / 10);
        assert(a % 10 < b % 10);
        lemma_lex_common_prefix(padded(a / 10, v), t1, t2);
        assert(t1[0] == da && t2[0] == db);
        assert(da < db);
    }
}

/// What follows the year in a name.
spec fn after_year(t: Timestamp, ext: Seq<char>) -> Seq<char> {
    padded(t.month as nat, 2) + after_month(t, ext)
}

spec fn after_month(t: Timestamp, ext: Seq<char>) -> Seq<char> {
    padded(t.day as nat, 2) + after_day(t, ext)
}

spec fn after_day(t: Timestamp, ext: Seq<char>) -> Seq<char> {
    seq!['-'] + (padded(t.hour as nat, 2) + after_hour(t, ext))
}

spec fn after_hour(t: Timestamp, ext: Seq<char>) -> Seq<char> {
    padded(t.minute as nat, 2) + after_minute(t, ext)
}

spec fn after_minute(t: Timestamp, ext: Seq<char>) -> Seq<char> {
    padded(t.second as nat, 2) + (seq!['.'] + ext)
}

proof fn lemma_name_parts(t: Timestamp, ext: Seq<char>)
    requires
        t.four_digit_year(),
    ensures
        recording_name(t, ext) == "recording-"@ + (padded(t.year as nat, 4) + after_year(t, ext)),
{
    assert(recording_name(t, ext) =~= "recording-"@ + (padded(t.year as nat, 4) + after_year(
        t,
        ext,
    )));
}

/// Names sort by creation time: of two moments with years of four digits,
/// the earlier one has the name that comes first in the order of strings,
/// whatever the formats of the two recordings.
pub proof fn lemma_names_sort(t1: Timestamp, t2: Timestamp, ext1: Seq<char>, ext2: Seq<char>)
    requires
        t1.wf(),
        t2.wf(),
        t1.four_digit_year(),
        t2.four_digit_year(),
        t1.before(t2),
    ensures
        lex_less(recording_name(t1, ext1), recording_name(t2, ext2)),
{
    lemma_name_parts(t1, ext1);
    lemma_name_parts(t2, ext2);
    assert(pow10(2) == 100 && pow10(4) == 10000) by {
        reveal_with_fuel(pow10, 5);
    }
    let y1 = padded(t1.year as nat, 4);
    let y2 = padded(t2.year as nat, 4);
    lemma_lex_common_prefix("recording-"@, y1 + after_year(t1, ext1), y2 + after_year(t2, ext2));
    if t1.year != t2.year {
        lemma_padded_order(t1.year as nat, t2.year as nat, 4, after_year(t1, ext1), after_year(t2, ext2));
    } else {
        lemma_lex_common_prefix(y1, after_year(t1, ext1), after_year(t2, ext2));
        let m1 = padded(t1.month as nat, 2);
        if t1.month != t2.month {
            lemma_padded_order(
                t1.month as nat,
                t2.month as nat,
                2,
                after_month(t1, ext1),
                after_month(t2, ext2),
            );
        } else {
            lemma_lex_common_prefix(m1, after_month(t1, ext1), after_month(t2, ext2));
            let d1 = padded(t1.day as nat, 2);
            if t1.day != t2.day {
                lemma_padded_order(t1.day as nat, t2.day as nat, 2, after_day(t1, ext1), after_day(t2, ext2));
            } else {
                lemma_lex_common_prefix(d1, after_day(t1, ext1), after_day(t2, ext2));
                let h1 = padded(t1.hour as nat, 2);
                lemma_lex_common_prefix(
                    seq!['-'],
                    h1 + after_hour(t1, ext1),
                    padded(t2.hour as nat, 2) + after_hour(t2, ext2),
                );
                if t1.hour != t2.hour {
                    lemma_padded_order(
                        t1.hour as nat,
                        t2.hour as nat,
                        2,
                        after_hour(t1, ext1),
                        after_hour(t2, ext2),
                    );
                } else {
                    lemma_lex_common_prefix(h1, after_hour(t1, ext1), after_hour(t2, ext2));
                    let n1 = padded(t1.minute as nat, 2);
                    if t1.minute != t2.minute {
                        lemma_padded_order(
                            t1.minute as nat,
                            t2.minute as nat,
                            2,
                            after_minute(t1, ext1),
                            after_minute(t2, ext2),
                        );
                    } else {
                        lemma_lex_common_prefix(n1, after_minute(t1, ext1), after_minute(t2, ext2));
                        lemma_padded_order(
                            t1.second as nat,
                            t2.second as nat,
                            2,
                            seq!['.'] + ext1,
                            seq!['.'] + ext2,
                        );
                    }
                }
            }
        }
    }
}

/// What follows the year in a time in ISO 8601.
spec fn iso_after_year(t: Timestamp, offset: int) -> Seq<char> {
    seq!['-'] + (padded(t.month as nat, 2) + iso_after_month(t, offset))
}

spec fn iso_after_month(t: Timestamp, offset: int) -> Seq<char> {
    seq!['-'] + (padded(t.day as nat, 2) + iso_after_day(t, offset))
}

spec fn iso_after_day(t: Timestamp, offset: int) -> Seq<char> {
    seq!['T'] + (padded(t.hour as nat, 2) + iso_after_hour(t, offset))
}

spec fn iso_after_hour(t: Timestamp, offset: int) -> Seq<char> {
    seq![':'] + (padded(t.minute as nat, 2) + iso_after_minute(t, offset))
}

spec fn iso_after_minute(t: Timestamp, offset: int) -> Seq<char> {
    seq![':'] + (padded(t.second as nat, 2) + offset_text(offset))
}

proof fn lemma_iso_parts(t: Timestamp, offset: int)
    requires
        t.four_digit_year(),
    ensures
        iso_text(t, offset) == padded(t.year as nat, 4) + iso_after_year(t, offset),
{
    assert(iso_text(t, offset) =~= padded(t.year as nat, 4) + iso_after_year(t, offset));
}

/// Times in ISO 8601 sort as the local times that they tell: of two moments
/// with years of four digits, the one that is earlier on the local calendar
/// and clock has the text that comes first in the order of strings.
pub proof fn lemma_iso_sorts(t1: Timestamp, t2: Timestamp, offset1: int, offset2: int)
    requires
        t1.wf(),
        t2.wf(),
        t1.four_digit_year(),
        t2.four_digit_year(),
        t1.before(t2),
    ensures
        lex_less(iso_text(t1, offset1), iso_text(t2, offset2)),
{
    lemma_iso_parts(t1, offset1);
    lemma_iso_parts(t2, offset2);
    assert(pow10(2) == 100 && pow10(4) == 10000) by {
        reveal_with_fuel(pow10, 5);
    }
    let two = |v: u32| padded(v as nat, 2);
    if t1.year != t2.year {
        lemma_padded_order(
            t1.year as nat,
            t2.year as nat,
            4,
            iso_after_year(t1, offset1),
            iso_after_year(t2, offset2),
        );
    } else {
        lemma_lex_common_prefix(
            padded(t1.year as nat, 4),
            iso_after_year(t1, offset1),
            iso_after_year(t2, offset2),
        );
        lemma_lex_common_prefix(
            seq!['-'],
            two(t1.month) + iso_after_month(t1, offset1),
            two(t2.month) + iso_after_month(t2, offset2),
        );
        if t1.month != t2.month {
            lemma_padded_order(
                t1.month as nat,
                t2.month as nat,
                2,
                iso_after_month(t1, offset1),
                iso_after_month(t2, offset2),
            );
        } else {
            lemma_lex_common_prefix(
                two(t1.month),
                iso_after_month(t1, offset1),
                iso_after_month(t2, offset2),
            );
            lemma_lex_common_prefix(
                seq!['-'],
                two(t1.day) + iso_after_day(t1, offset1),
                two(t2.day) + iso_after_day(t2, offset2),
            );
            if t1.day != t2.day {
                lemma_padded_order(
                    t1.day as nat,
                    t2.day as nat,
                    2,
                    iso_after_day(t1, offset1),
                    iso_after_day(t2, offset2),
                );
            } else {
                lemma_lex_common_prefix(
                    two(t1.day),
                    iso_after_day(t1, offset1),
                    iso_after_day(t2, offset2),
                );
                lemma_lex_common_prefix(
                    seq!['T'],
                    two(t1.hour) + iso_after_hour(t1, offset1),
                    two(t2.hour) + iso_after_hour(t2, offset2),
                );
                if t1.hour != t2.hour {
                    lemma_padded_order(
                        t1.hour as nat,
                        t2.hour as nat,
                        2,
                        iso_after_hour(t1, offset1),
                        iso_after_hour(t2, offset2),
                    );
                } else {
                    lemma_lex_common_prefix(
                        two(t1.hour),
                        iso_after_hour(t1, offset1),
                        iso_after_hour(t2, offset2),
                    );
                    lemma_lex_common_prefix(
                        seq![':'],
                        two(t1.minute) + iso_after_minute(t1, offset1),
                        two(t2.minute) + iso_after_minute(t2, offset2),
                    );
                    if t1.minute != t2.minute {
                        lemma_padded_order(
                            t1.minute as nat,
                            t2.minute as nat,
                            2,
                            iso_after_minute(t1, offset1),
                            iso_after_minute(t2, offset2),
                        );
                    } else {
                        lemma_lex_common_prefix(
                            two(t1.minute),
                            iso_after_minute(t1, offset1),
                            iso_after_minute(t2, offset2),
                        );
                        lemma_lex_common_prefix(
                            seq![':'],
                            two(t1.second) + offset_text(offset1),
                            two(t2.second) + offset_text(offset2),
                        );
                        lemma_padded_order(
                            t1.second as nat,
                            t2.second as nat,
                            2,
                            offset_text(offset1),
                            offset_text(offset2),
                        );
                    }
                }
            }
        }
    }
}

} // verus!
