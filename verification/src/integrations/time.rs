//! Date/time scalars backed by the `time` crate.
//!
//! Each scalar is held as plain calendar/clock components (or, for the
//! offset-aware instant, as nanoseconds since the Unix epoch), so the
//! algebra around it is verified; parsing strings and formatting instants
//! are the `time` crate's work, called through trusted wrappers.
//!
//! | Type                | Format                | Scalar          |
//! |---------------------|-----------------------|-----------------|
//! | [`LocalDate`]       | `yyyy-MM-dd`          | `LocalDate`     |
//! | [`LocalTime`]       | `HH:mm[:ss[.SSS]]`    | `LocalTime`     |
//! | [`LocalDateTime`]   | `yyyy-MM-ddTHH:mm:ss` | `LocalDateTime` |
//! | [`DateTime`]        | RFC 3339 string       | `DateTime`      |
//! | [`UtcOffset`]       | `±hh:mm`              | `UtcOffset`     |

use vstd::prelude::*;
use crate::digits::{pad2_text, pad3_text, pad4_text, push_pad2, push_pad3, push_pad4};
use crate::input_value::{scalar_string, FromInputValue, InputValue, ToInputValue, ValueModel};
use crate::scalar::ScalarValue;

verus! {

/// Whether `y` is a leap year of the proleptic Gregorian calendar.
pub open spec fn is_leap_year(y: int) -> bool {
    y % 4 == 0 && (y % 100 != 0 || y % 400 == 0)
}

/// How many days month `m` of year `y` has; `m` must lie in `1 ..= 12`.
pub open spec fn days_in_month(y: int, m: int) -> int {
    if m == 2 {
        if is_leap_year(y) {
            29
        } else {
            28
        }
    } else if m == 4 || m == 6 || m == 9 || m == 11 {
        30
    } else {
        31
    }
}

/// Whether the components form a calendar date this crate can hold: a
/// four-digit year and a valid month/day pair.
pub open spec fn date_components_wf(y: int, m: int, d: int) -> bool {
    &&& 0 <= y <= 9999
    &&& 1 <= m <= 12
    &&& 1 <= d <= days_in_month(y, m)
}

/// Whether the components form a clock time: millisecond precision, no
/// leap seconds.
pub open spec fn time_components_wf(h: int, mi: int, s: int, ms: int) -> bool {
    &&& 0 <= h < 24
    &&& 0 <= mi < 60
    &&& 0 <= s < 60
    &&& 0 <= ms < 1000
}

/// A date of the proleptic Gregorian calendar, without a time zone.
///
/// Represents a description of a date (as used for birthdays, for
/// example); it cannot represent an instant on the time-line.
#[derive(Clone, Copy, Debug, PartialEq, Eq, Structural)]
pub struct LocalDate {
    /// The year, `0 ..= 9999`.
    pub year: i32,
    /// The month, `1 ..= 12`.
    pub month: u8,
    /// The day of the month, `1 ..=` the month's length.
    pub day: u8,
}

/// A clock time within a day, without a time zone, at millisecond
/// precision. All minutes have exactly 60 seconds: no attempt is made to
/// handle leap seconds.
#[derive(Clone, Copy, Debug, PartialEq, Eq, Structural)]
pub struct LocalTime {
    /// The hour, `0 ..= 23`.
    pub hour: u8,
    /// The minute, `0 ..= 59`.
    pub minute: u8,
    /// The second, `0 ..= 59`.
    pub second: u8,
    /// The millisecond, `0 ..= 999`.
    pub millisecond: u16,
}

/// A combined date and time, without a time zone.
#[derive(Clone, Copy, Debug, PartialEq, Eq, Structural)]
pub struct LocalDateTime {
    /// The date part.
    pub date: LocalDate,
    /// The time part.
    pub time: LocalTime,
}

/// Canonical `yyyy-MM-dd` text of a date.
pub open spec fn local_date_text(d: LocalDate) -> Seq<char> {
    pad4_text(d.year as int) + seq!['-'] + pad2_text(d.month as int) + seq!['-'] + pad2_text(
        d.day as int,
    )
}

/// Canonical `HH:mm:ss[.SSS]` text of a time: the milliseconds appear
/// exactly when they are not zero.
pub open spec fn local_time_text(t: LocalTime) -> Seq<char> {
    pad2_text(t.hour as int) + seq![':'] + pad2_text(t.minute as int) + seq![':'] + pad2_text(
        t.second as int,
    ) + (if t.millisecond != 0 {
        seq!['.'] + pad3_text(t.millisecond as int)
    } else {
        Seq::empty()
    })
}

/// Canonical `yyyy-MM-ddTHH:mm:ss` text of a date-time; sub-second
/// precision is never rendered.
pub open spec fn local_date_time_text(dt: LocalDateTime) -> Seq<char> {
    local_date_text(dt.date) + seq!['T'] + pad2_text(dt.time.hour as int) + seq![':'] + pad2_text(
        dt.time.minute as int,
    ) + seq![':'] + pad2_text(dt.time.second as int)
}

/// What `time::Date::parse` yields on a string under the
/// `[year]-[month]-[day]` format: the parsed year, month and day, or
/// nothing if the string is rejected.
pub uninterp spec fn local_date_parse(s: Seq<char>) -> Option<(i32, u8, u8)>;

/// What `time::Time::parse` yields on a string under the
/// `[hour]:[minute]:[second]`, `[hour]:[minute]` and
/// `[hour]:[minute]:[second].[subsecond digits:3]` formats, tried in that
/// order: hour, minute, second and millisecond, or nothing if the string
/// is rejected by all three.
pub uninterp spec fn local_time_parse(s: Seq<char>) -> Option<(u8, u8, u8, u16)>;

/// What `time::PrimitiveDateTime::parse` yields on a string under the
/// `[year]-[month]-[day]T[hour]:[minute]:[second]` format.
pub uninterp spec fn local_date_time_parse(s: Seq<char>) -> Option<(i32, u8, u8, u8, u8, u8)>;

/// Relies on `time::Date::parse` with the `[year]-[month]-[day]` format
/// description, which also validates the calendar (month range, day range
/// within the month, leap years).
#[verifier::external_body]
fn parse_local_date_raw(s: &str) -> (r: Option<(i32, u8, u8)>)
    ensures
        r == local_date_parse(s@),
{
    let fmt = ::time::format_description::parse("[year]-[month]-[day]").ok()?;
    let d = ::time::Date::parse(s, fmt.as_slice()).ok()?;
    Some((d.year(), u8::from(d.month()), d.day()))
}

/// Relies on `time::Time::parse`, trying the most used format first, with
/// the same formats and order as the canonical `HH:mm[:ss[.SSS]]` form.
#[verifier::external_body]
fn parse_local_time_raw(s: &str) -> (r: Option<(u8, u8, u8, u16)>)
    ensures
        r == local_time_parse(s@),
{
    let f_hms = ::time::format_description::parse("[hour]:[minute]:[second]").ok()?;
    let f_hm = ::time::format_description::parse("[hour]:[minute]").ok()?;
    let f_full = ::time::format_description::parse(
        "[hour]:[minute]:[second].[subsecond digits:3]",
    ).ok()?;
    let t = ::time::Time::parse(s, f_hms.as_slice())
        .or_else(|_| ::time::Time::parse(s, f_hm.as_slice()))
        .or_else(|_| ::time::Time::parse(s, f_full.as_slice()))
        .ok()?;
    Some((t.hour(), t.minute(), t.second(), t.millisecond()))
}

/// Relies on `time::PrimitiveDateTime::parse` with the
/// `[year]-[month]-[day]T[hour]:[minute]:[second]` format description.
#[verifier::external_body]
fn parse_local_date_time_raw(s: &str) -> (r: Option<(i32, u8, u8, u8, u8, u8)>)
    ensures
        r == local_date_time_parse(s@),
{
    let fmt = ::time::format_description::parse(
        "[year]-[month]-[day]T[hour]:[minute]:[second]",
    ).ok()?;
    let dt = ::time::PrimitiveDateTime::parse(s, fmt.as_slice()).ok()?;
    Some((dt.year(), u8::from(dt.month()), dt.day(), dt.hour(), dt.minute(), dt.second()))
}

/// How many days month `month` of year `year` has.
#[verifier::rlimit(50)]
pub fn days_in(year: i32, month: u8) -> (r: u8)
    requires
        0 <= year,
        1 <= month <= 12,
    ensures
        r as int == days_in_month(year as int, month as int),
{
    if month == 2 {
        if year % 4 == 0 && (year % 100 != 0 || year % 400 == 0) {
            29
        } else {
            28
        }
    } else if month == 4 || month == 6 || month == 9 || month == 11 {
        30
    } else {
        31
    }
}

impl LocalDate {
    /// Whether the stored components form a date.
    pub open spec fn wf(self) -> bool {
        date_components_wf(self.year as int, self.month as int, self.day as int)
    }

    /// Builds the date with the given components, if they form a date.
    pub fn new(year: i32, month: u8, day: u8) -> (r: Option<LocalDate>)
        ensures
            r is Some <==> date_components_wf(year as int, month as int, day as int),
            r is Some ==> r->0 == (LocalDate { year, month, day }) && r->0.wf(),
    {
        if 0 <= year && year <= 9999 && 1 <= month && month <= 12 && 1 <= day && day <= days_in(
            year,
            month,
        ) {
            Some(LocalDate { year, month, day })
        } else {
            None
        }
    }

    /// Renders this date as `yyyy-MM-dd`.
    pub fn render(&self) -> (r: String)
        requires
            self.wf(),
        ensures
            r@ == local_date_text(*self),
    {
        let mut out = String::new();
        push_pad4(&mut out, self.year as u16);
        out.append("-");
        push_pad2(&mut out, self.month);
        out.append("-");
        push_pad2(&mut out, self.day);
        proof {
            reveal_strlit("-");
            assert(out@ =~= local_date_text(*self));
        }
        out
    }
}

impl LocalTime {
    /// Whether the stored components form a clock time.
    pub open spec fn wf(self) -> bool {
        time_components_wf(
            self.hour as int,
            self.minute as int,
            self.second as int,
            self.millisecond as int,
        )
    }

    /// Builds the time with the given components, if they form a clock
    /// time.
    pub fn new(hour: u8, minute: u8, second: u8, millisecond: u16) -> (r: Option<LocalTime>)
        ensures
            r is Some <==> time_components_wf(
                hour as int,
                minute as int,
                second as int,
                millisecond as int,
            ),
            r is Some ==> r->0 == (LocalTime { hour, minute, second, millisecond }) && r->0.wf(),
    {
        if hour < 24 && minute < 60 && second < 60 && millisecond < 1000 {
            Some(LocalTime { hour, minute, second, millisecond })
        } else {
            None
        }
    }

    /// Renders this time as `HH:mm:ss`, with `.SSS` appended exactly when
    /// the milliseconds are not zero.
    pub fn render(&self) -> (r: String)
        requires
            self.wf(),
        ensures
            r@ == local_time_text(*self),
    {
        let mut out = String::new();
        push_pad2(&mut out, self.hour);
        out.append(":");
        push_pad2(&mut out, self.minute);
        out.append(":");
        push_pad2(&mut out, self.second);
        if self.millisecond != 0 {
            out.append(".");
            push_pad3(&mut out, self.millisecond);
        }
        proof {
            reveal_strlit(":");
            reveal_strlit(".");
            assert(out@ =~= local_time_text(*self));
        }
        out
    }
}

impl LocalDateTime {
    /// Whether both parts are well-formed.
    pub open spec fn wf(self) -> bool {
        self.date.wf() && self.time.wf()
    }

    /// Pairs a date and a time.
    pub fn new(date: LocalDate, time: LocalTime) -> (r: LocalDateTime)
        ensures
            r == (LocalDateTime { date, time }),
    {
        LocalDateTime { date, time }
    }

    /// Renders this date-time as `yyyy-MM-ddTHH:mm:ss`.
    pub fn render(&self) -> (r: String)
        requires
            self.wf(),
        ensures
            r@ == local_date_time_text(*self),
    {
        let mut out = self.date.render();
        out.append("T");
        push_pad2(&mut out, self.time.hour);
        out.append(":");
        push_pad2(&mut out, self.time.minute);
        out.append(":");
        push_pad2(&mut out, self.time.second);
        proof {
            reveal_strlit("T");
            reveal_strlit(":");
            assert(out@ =~= local_date_time_text(*self));
        }
        out
    }
}

} // verus!

verus! {

/// The Unix-epoch nanosecond of `0000-01-01T00:00:00Z`, the earliest
/// instant RFC 3339 can write.
pub const MIN_RFC3339_NANOS: i128 = -62_167_219_200_000_000_000;

/// The Unix-epoch nanosecond of `9999-12-31T23:59:59.999999999Z`, the
/// latest instant RFC 3339 can write.
pub const MAX_RFC3339_NANOS: i128 = 253_402_300_799_999_999_999;

/// An exact instant on the time-line (such as the instant a user account
/// was created), held as nanoseconds since the Unix epoch and always
/// rendered at UTC. Inputs carrying another offset are coerced to UTC
/// when parsed.
#[derive(Clone, Copy, Debug, PartialEq, Eq, Structural)]
pub struct DateTime {
    /// Nanoseconds since `1970-01-01T00:00:00Z`.
    pub nanos: i128,
}

/// An offset from UTC, held as whole minutes east of UTC.
#[derive(Clone, Copy, Debug, PartialEq, Eq, Structural)]
pub struct UtcOffset {
    /// Whole minutes east of UTC; negative values lie west of UTC.
    pub minutes: i16,
}

/// Canonical `±hh:mm` text of an offset; zero takes the `+` sign.
pub open spec fn utc_offset_text(o: UtcOffset) -> Seq<char> {
    (if o.minutes >= 0 {
        seq!['+']
    } else {
        seq!['-']
    }) + pad2_text(abs_minutes(o.minutes as int) / 60) + seq![':'] + pad2_text(
        abs_minutes(o.minutes as int) % 60,
    )
}

/// The magnitude of a minute count.
pub open spec fn abs_minutes(m: int) -> int {
    if m < 0 {
        -m
    } else {
        m
    }
}

/// What `time::OffsetDateTime::parse` under the RFC 3339 well-known
/// format yields on a string: the parsed instant's nanosecond since the
/// Unix epoch, or nothing if the string is rejected.
pub uninterp spec fn date_time_parse(s: Seq<char>) -> Option<i128>;

/// What formatting the instant `nanos` nanoseconds past the Unix epoch
/// with the RFC 3339 well-known format at UTC yields.
pub uninterp spec fn date_time_text(nanos: int) -> Seq<char>;

/// What `time::UtcOffset::parse` under the
/// `[offset_hour sign:mandatory]:[offset_minute]` format yields on a
/// string: the parsed offset in whole minutes, or nothing if the string
/// is rejected.
pub uninterp spec fn utc_offset_parse(s: Seq<char>) -> Option<i16>;

/// Relies on `time::OffsetDateTime::parse` with the RFC 3339 well-known
/// format and on `unix_timestamp_nanos`. The four-digit year bounds only
/// the written local components, not the UTC instant once the offset is
/// applied, so nothing is claimed of the result's range: the caller
/// checks it.
#[verifier::external_body]
fn parse_date_time_raw(s: &str) -> (r: Option<i128>)
    ensures
        r == date_time_parse(s@),
{
    let dt = ::time::OffsetDateTime::parse(
        s,
        &::time::format_description::well_known::Rfc3339,
    ).ok()?;
    Some(dt.unix_timestamp_nanos())
}

/// Relies on `time::OffsetDateTime::from_unix_timestamp_nanos` and
/// `format` with the RFC 3339 well-known format, which renders every
/// instant of a four-digit year at UTC.
#[verifier::external_body]
fn format_date_time_raw(nanos: i128) -> (r: String)
    requires
        MIN_RFC3339_NANOS <= nanos <= MAX_RFC3339_NANOS,
    ensures
        r@ == date_time_text(nanos as int),
{
    let dt = ::time::OffsetDateTime::from_unix_timestamp_nanos(nanos).unwrap();
    dt.format(&::time::format_description::well_known::Rfc3339).unwrap()
}

/// Relies on `time::UtcOffset::parse` with the
/// `[offset_hour sign:mandatory]:[offset_minute]` format description and
/// on `whole_minutes`.
#[verifier::external_body]
fn parse_utc_offset_raw(s: &str) -> (r: Option<i16>)
    ensures
        r == utc_offset_parse(s@),
{
    let fmt = ::time::format_description::parse(
        "[offset_hour sign:mandatory]:[offset_minute]",
    ).ok()?;
    let o = ::time::UtcOffset::parse(s, fmt.as_slice()).ok()?;
    Some(o.whole_minutes())
}

impl DateTime {
    /// Whether the instant can be written in RFC 3339.
    pub open spec fn wf(self) -> bool {
        MIN_RFC3339_NANOS <= self.nanos <= MAX_RFC3339_NANOS
    }

    /// Builds the instant the given number of nanoseconds past the Unix
    /// epoch, if RFC 3339 can write it.
    pub fn from_unix_nanos(nanos: i128) -> (r: Option<DateTime>)
        ensures
            r is Some <==> MIN_RFC3339_NANOS <= nanos <= MAX_RFC3339_NANOS,
            r is Some ==> r->0 == (DateTime { nanos }) && r->0.wf(),
    {
        if MIN_RFC3339_NANOS <= nanos && nanos <= MAX_RFC3339_NANOS {
            Some(DateTime { nanos })
        } else {
            None
        }
    }

    /// Renders this instant as an RFC 3339 string at UTC.
    pub fn render(&self) -> (r: String)
        requires
            self.wf(),
        ensures
            r@ == date_time_text(self.nanos as int),
    {
        format_date_time_raw(self.nanos)
    }
}

impl UtcOffset {
    /// Whether the offset's hour part fits in two digits.
    pub open spec fn wf(self) -> bool {
        -5999 <= self.minutes <= 5999
    }

    /// Builds the offset `minutes` minutes east of UTC, if its hour part
    /// fits in two digits.
    pub fn from_minutes(minutes: i16) -> (r: Option<UtcOffset>)
        ensures
            r is Some <==> -5999 <= minutes <= 5999,
            r is Some ==> r->0 == (UtcOffset { minutes }) && r->0.wf(),
    {
        if -5999 <= minutes && minutes <= 5999 {
            Some(UtcOffset { minutes })
        } else {
            None
        }
    }

    /// Renders this offset as `±hh:mm`.
    pub fn render(&self) -> (r: String)
        requires
            self.wf(),
        ensures
            r@ == utc_offset_text(*self),
    {
        let mut out = String::new();
        let mag: i16 = if self.minutes < 0 {
            out.append("-");
            -self.minutes
        } else {
            out.append("+");
            self.minutes
        };
        push_pad2(&mut out, (mag / 60) as u8);
        out.append(":");
        push_pad2(&mut out, (mag % 60) as u8);
        proof {
            reveal_strlit("+");
            reveal_strlit("-");
            reveal_strlit(":");
            assert(out@ =~= utc_offset_text(*self));
        }
        out
    }
}

} // verus!

verus! {

/// The message a rejected conversion to [`LocalDate`] reports.
pub open spec fn local_date_error<S: ScalarValue>(m: ValueModel<S::M>) -> Seq<char> {
    match scalar_string::<S>(m) {
        Some(t) => match local_date_parse(t) {
            Some(_) => "Invalid `LocalDate`: out of range"@,
            None => "Invalid `LocalDate`: unrecognized format"@,
        },
        None => "Invalid `LocalDate`: not a string"@,
    }
}

/// The message a rejected conversion to [`LocalTime`] reports.
pub open spec fn local_time_error<S: ScalarValue>(m: ValueModel<S::M>) -> Seq<char> {
    match scalar_string::<S>(m) {
        Some(t) => match local_time_parse(t) {
            Some(_) => "Invalid `LocalTime`: out of range"@,
            None => "Invalid `LocalTime`: unrecognized format"@,
        },
        None => "Invalid `LocalTime`: not a string"@,
    }
}

/// The message a rejected conversion to [`LocalDateTime`] reports.
pub open spec fn local_date_time_error<S: ScalarValue>(m: ValueModel<S::M>) -> Seq<char> {
    match scalar_string::<S>(m) {
        Some(t) => match local_date_time_parse(t) {
            Some(_) => "Invalid `LocalDateTime`: out of range"@,
            None => "Invalid `LocalDateTime`: unrecognized format"@,
        },
        None => "Invalid `LocalDateTime`: not a string"@,
    }
}

/// The message a rejected conversion to [`DateTime`] reports.
pub open spec fn date_time_error<S: ScalarValue>(m: ValueModel<S::M>) -> Seq<char> {
    match scalar_string::<S>(m) {
        Some(t) => match date_time_parse(t) {
            Some(_) => "Invalid `DateTime`: out of range"@,
            None => "Invalid `DateTime`: unrecognized format"@,
        },
        None => "Invalid `DateTime`: not a string"@,
    }
}

/// The message a rejected conversion to [`UtcOffset`] reports.
pub open spec fn utc_offset_error<S: ScalarValue>(m: ValueModel<S::M>) -> Seq<char> {
    match scalar_string::<S>(m) {
        Some(t) => match utc_offset_parse(t) {
            Some(_) => "Invalid `UtcOffset`: out of range"@,
            None => "Invalid `UtcOffset`: unrecognized format"@,
        },
        None => "Invalid `UtcOffset`: not a string"@,
    }
}

impl<S: ScalarValue> FromInputValue<S> for LocalDate {
    type Error = String;

    open spec fn rejects_with(m: ValueModel<S::M>, e: String) -> bool {
        e@ == local_date_error::<S>(m)
    }

    open spec fn accepts(m: ValueModel<S::M>) -> bool {
        match scalar_string::<S>(m) {
            Some(t) => match local_date_parse(t) {
                Some((y, mo, d)) => date_components_wf(y as int, mo as int, d as int),
                None => false,
            },
            None => false,
        }
    }

    open spec fn parses_to(m: ValueModel<S::M>, t: Self) -> bool {
        match scalar_string::<S>(m) {
            Some(txt) => match local_date_parse(txt) {
                Some((y, mo, d)) => t == (LocalDate { year: y, month: mo, day: d }),
                None => false,
            },
            None => false,
        }
    }

    fn from_input_value(v: &InputValue<S>) -> (r: Result<Self, String>) {
        match v {
            InputValue::Scalar(s) => match s.as_string() {
                Some(txt) => match parse_local_date_raw(txt) {
                    Some((y, mo, d)) => match LocalDate::new(y, mo, d) {
                        Some(date) => Ok(date),
                        None => Err(String::from_str("Invalid `LocalDate`: out of range")),
                    },
                    None => Err(String::from_str("Invalid `LocalDate`: unrecognized format")),
                },
                None => Err(String::from_str("Invalid `LocalDate`: not a string")),
            },
            _ => Err(String::from_str("Invalid `LocalDate`: not a string")),
        }
    }
}

impl<S: ScalarValue> ToInputValue<S> for LocalDate {
    open spec fn to_model(&self) -> ValueModel<S::M> {
        if self.wf() {
            ValueModel::Scalar(S::str_model(local_date_text(*self)))
        } else {
            ValueModel::Null
        }
    }

    fn to_input_value(&self) -> (r: InputValue<S>) {
        if 0 <= self.year && self.year <= 9999 && 1 <= self.month && self.month <= 12 && 1
            <= self.day && self.day <= days_in(self.year, self.month) {
            InputValue::Scalar(S::from_string(self.render()))
        } else {
            InputValue::Null
        }
    }
}

impl<S: ScalarValue> FromInputValue<S> for LocalTime {
    type Error = String;

    open spec fn rejects_with(m: ValueModel<S::M>, e: String) -> bool {
        e@ == local_time_error::<S>(m)
    }

    open spec fn accepts(m: ValueModel<S::M>) -> bool {
        match scalar_string::<S>(m) {
            Some(t) => match local_time_parse(t) {
                Some((h, mi, s, ms)) => time_components_wf(
                    h as int,
                    mi as int,
                    s as int,
                    ms as int,
                ),
                None => false,
            },
            None => false,
        }
    }

    open spec fn parses_to(m: ValueModel<S::M>, t: Self) -> bool {
        match scalar_string::<S>(m) {
            Some(txt) => match local_time_parse(txt) {
                Some((h, mi, s, ms)) => t == (LocalTime {
                    hour: h,
                    minute: mi,
                    second: s,
                    millisecond: ms,
                }),
                None => false,
            },
            None => false,
        }
    }

    fn from_input_value(v: &InputValue<S>) -> (r: Result<Self, String>) {
        match v {
            InputValue::Scalar(s) => match s.as_string() {
                Some(txt) => match parse_local_time_raw(txt) {
                    Some((h, mi, sec, ms)) => match LocalTime::new(h, mi, sec, ms) {
                        Some(time) => Ok(time),
                        None => Err(String::from_str("Invalid `LocalTime`: out of range")),
                    },
                    None => Err(String::from_str("Invalid `LocalTime`: unrecognized format")),
                },
                None => Err(String::from_str("Invalid `LocalTime`: not a string")),
            },
            _ => Err(String::from_str("Invalid `LocalTime`: not a string")),
        }
    }
}

impl<S: ScalarValue> ToInputValue<S> for LocalTime {
    open spec fn to_model(&self) -> ValueModel<S::M> {
        if self.wf() {
            ValueModel::Scalar(S::str_model(local_time_text(*self)))
        } else {
            ValueModel::Null
        }
    }

    fn to_input_value(&self) -> (r: InputValue<S>) {
        if self.hour < 24 && self.minute < 60 && self.second < 60 && self.millisecond < 1000 {
            InputValue::Scalar(S::from_string(self.render()))
        } else {
            InputValue::Null
        }
    }
}

impl<S: ScalarValue> FromInputValue<S> for LocalDateTime {
    type Error = String;

    open spec fn rejects_with(m: ValueModel<S::M>, e: String) -> bool {
        e@ == local_date_time_error::<S>(m)
    }

    open spec fn accepts(m: ValueModel<S::M>) -> bool {
        match scalar_string::<S>(m) {
            Some(t) => match local_date_time_parse(t) {
                Some((y, mo, d, h, mi, s)) => date_components_wf(y as int, mo as int, d as int)
                    && time_components_wf(h as int, mi as int, s as int, 0),
                None => false,
            },
            None => false,
        }
    }

    open spec fn parses_to(m: ValueModel<S::M>, t: Self) -> bool {
        match scalar_string::<S>(m) {
            Some(txt) => match local_date_time_parse(txt) {
                Some((y, mo, d, h, mi, s)) => t == (LocalDateTime {
                    date: LocalDate { year: y, month: mo, day: d },
                    time: LocalTime { hour: h, minute: mi, second: s, millisecond: 0 },
                }),
                None => false,
            },
            None => false,
        }
    }

    fn from_input_value(v: &InputValue<S>) -> (r: Result<Self, String>) {
        match v {
            InputValue::Scalar(s) => match s.as_string() {
                Some(txt) => match parse_local_date_time_raw(txt) {
                    Some((y, mo, d, h, mi, sec)) => match LocalDate::new(y, mo, d) {
                        Some(date) => match LocalTime::new(h, mi, sec, 0) {
                            Some(time) => Ok(LocalDateTime { date, time }),
                            None => Err(
                                String::from_str("Invalid `LocalDateTime`: out of range"),
                            ),
                        },
                        None => Err(String::from_str("Invalid `LocalDateTime`: out of range")),
                    },
                    None => Err(String::from_str("Invalid `LocalDateTime`: unrecognized format")),
                },
                None => Err(String::from_str("Invalid `LocalDateTime`: not a string")),
            },
            _ => Err(String::from_str("Invalid `LocalDateTime`: not a string")),
        }
    }
}

impl<S: ScalarValue> ToInputValue<S> for LocalDateTime {
    open spec fn to_model(&self) -> ValueModel<S::M> {
        if self.wf() {
            ValueModel::Scalar(S::str_model(local_date_time_text(*self)))
        } else {
            ValueModel::Null
        }
    }

    fn to_input_value(&self) -> (r: InputValue<S>) {
        if 0 <= self.date.year && self.date.year <= 9999 && 1 <= self.date.month
            && self.date.month <= 12 && 1 <= self.date.day && self.date.day <= days_in(
            self.date.year,
            self.date.month,
        ) && self.time.hour < 24 && self.time.minute < 60 && self.time.second < 60
            && self.time.millisecond < 1000 {
            InputValue::Scalar(S::from_string(self.render()))
        } else {
            InputValue::Null
        }
    }
}

impl<S: ScalarValue> FromInputValue<S> for DateTime {
    type Error = String;

    open spec fn rejects_with(m: ValueModel<S::M>, e: String) -> bool {
        e@ == date_time_error::<S>(m)
    }

    open spec fn accepts(m: ValueModel<S::M>) -> bool {
        match scalar_string::<S>(m) {
            Some(t) => match date_time_parse(t) {
                Some(nanos) => MIN_RFC3339_NANOS <= nanos <= MAX_RFC3339_NANOS,
                None => false,
            },
            None => false,
        }
    }

    open spec fn parses_to(m: ValueModel<S::M>, t: Self) -> bool {
        match scalar_string::<S>(m) {
            Some(txt) => match date_time_parse(txt) {
                Some(nanos) => t == (DateTime { nanos }),
                None => false,
            },
            None => false,
        }
    }

    fn from_input_value(v: &InputValue<S>) -> (r: Result<Self, String>) {
        match v {
            InputValue::Scalar(s) => match s.as_string() {
                Some(txt) => match parse_date_time_raw(txt) {
                    Some(nanos) => match DateTime::from_unix_nanos(nanos) {
                        Some(dt) => Ok(dt),
                        None => Err(String::from_str("Invalid `DateTime`: out of range")),
                    },
                    None => Err(String::from_str("Invalid `DateTime`: unrecognized format")),
                },
                None => Err(String::from_str("Invalid `DateTime`: not a string")),
            },
            _ => Err(String::from_str("Invalid `DateTime`: not a string")),
        }
    }
}

impl<S: ScalarValue> ToInputValue<S> for DateTime {
    open spec fn to_model(&self) -> ValueModel<S::M> {
        if self.wf() {
            ValueModel::Scalar(S::str_model(date_time_text(self.nanos as int)))
        } else {
            ValueModel::Null
        }
    }

    fn to_input_value(&self) -> (r: InputValue<S>) {
        if MIN_RFC3339_NANOS <= self.nanos && self.nanos <= MAX_RFC3339_NANOS {
            InputValue::Scalar(S::from_string(self.render()))
        } else {
            InputValue::Null
        }
    }
}

impl<S: ScalarValue> FromInputValue<S> for UtcOffset {
    type Error = String;

    open spec fn rejects_with(m: ValueModel<S::M>, e: String) -> bool {
        e@ == utc_offset_error::<S>(m)
    }

    open spec fn accepts(m: ValueModel<S::M>) -> bool {
        match scalar_string::<S>(m) {
            Some(t) => match utc_offset_parse(t) {
                Some(minutes) => -5999 <= minutes <= 5999,
                None => false,
            },
            None => false,
        }
    }

    open spec fn parses_to(m: ValueModel<S::M>, t: Self) -> bool {
        match scalar_string::<S>(m) {
            Some(txt) => match utc_offset_parse(txt) {
                Some(minutes) => t == (UtcOffset { minutes }),
                None => false,
            },
            None => false,
        }
    }

    fn from_input_value(v: &InputValue<S>) -> (r: Result<Self, String>) {
        match v {
            InputValue::Scalar(s) => match s.as_string() {
                Some(txt) => match parse_utc_offset_raw(txt) {
                    Some(minutes) => match UtcOffset::from_minutes(minutes) {
                        Some(o) => Ok(o),
                        None => Err(String::from_str("Invalid `UtcOffset`: out of range")),
                    },
                    None => Err(String::from_str("Invalid `UtcOffset`: unrecognized format")),
                },
                None => Err(String::from_str("Invalid `UtcOffset`: not a string")),
            },
            _ => Err(String::from_str("Invalid `UtcOffset`: not a string")),
        }
    }
}

impl<S: ScalarValue> ToInputValue<S> for UtcOffset {
    open spec fn to_model(&self) -> ValueModel<S::M> {
        if self.wf() {
            ValueModel::Scalar(S::str_model(utc_offset_text(*self)))
        } else {
            ValueModel::Null
        }
    }

    fn to_input_value(&self) -> (r: InputValue<S>) {
        if -5999 <= self.minutes && self.minutes <= 5999 {
            InputValue::Scalar(S::from_string(self.render()))
        } else {
            InputValue::Null
        }
    }
}

} // verus!
