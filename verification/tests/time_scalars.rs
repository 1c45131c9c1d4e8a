use juniper::input_value::{FromInputValue, InputValue, ToInputValue};
use juniper::integrations::time::{
    DateTime, LocalDate, LocalDateTime, LocalTime, UtcOffset,
};
use juniper::scalar::ScalarValue;
use vstd::prelude::Seq;

/// A scalar representation carrying the four primitive kinds, including
/// floats, which some rejected inputs use.
#[derive(Clone, Debug, PartialEq)]
enum TestScalar {
    Int(i32),
    Float(f64),
    String(String),
    Boolean(bool),
}

impl ScalarValue for TestScalar {
    type M = ();

    fn m(&self) -> Self::M {}

    fn txt(_m: Self::M) -> Seq<char> {
        panic!("specification-level function, never run")
    }

    fn str_model(_t: Seq<char>) -> Self::M {}

    fn as_str_model(_m: Self::M) -> Option<Seq<char>> {
        None
    }

    fn int_model(_v: i32) -> Self::M {}

    fn bool_model(_b: bool) -> Self::M {}

    fn sv_clone(&self) -> Self {
        self.clone()
    }

    fn sv_eq(&self, other: &Self) -> bool {
        self == other
    }

    fn render(&self) -> String {
        match self {
            TestScalar::Int(v) => format!("{v}"),
            TestScalar::Float(v) => format!("{v}"),
            TestScalar::String(s) => format!("\"{s}\""),
            TestScalar::Boolean(b) => format!("{b}"),
        }
    }

    fn from_string(s: String) -> Self {
        TestScalar::String(s)
    }

    fn from_int(v: i32) -> Self {
        TestScalar::Int(v)
    }

    fn from_bool(v: bool) -> Self {
        TestScalar::Boolean(v)
    }

    fn as_string(&self) -> Option<&str> {
        match self {
            TestScalar::String(s) => Some(s.as_str()),
            _ => None,
        }
    }
}

fn string_input(raw: &str) -> InputValue<TestScalar> {
    InputValue::scalar(TestScalar::String(raw.to_string()))
}

fn date(year: i32, month: u8, day: u8) -> LocalDate {
    LocalDate::new(year, month, day).unwrap()
}

fn clock(hour: u8, minute: u8, second: u8, millisecond: u16) -> LocalTime {
    LocalTime::new(hour, minute, second, millisecond).unwrap()
}

fn civil(year: i32, month: u8, day: u8, hour: u8, minute: u8, second: u8) -> LocalDateTime {
    LocalDateTime::new(date(year, month, day), clock(hour, minute, second, 0))
}

fn instant(
    year: i32,
    month: u8,
    day: u8,
    hour: u8,
    minute: u8,
    second: u8,
    milli: u16,
    offset_hours: i8,
    offset_minutes: i8,
) -> DateTime {
    let d = time::Date::from_calendar_date(year, time::Month::try_from(month).unwrap(), day)
        .unwrap();
    let t = time::Time::from_hms_milli(hour, minute, second, milli).unwrap();
    let o = time::UtcOffset::from_hms(offset_hours, offset_minutes, 0).unwrap();
    let nanos = time::PrimitiveDateTime::new(d, t).assume_offset(o).unix_timestamp_nanos();
    DateTime::from_unix_nanos(nanos).unwrap()
}

fn offset(minutes: i16) -> UtcOffset {
    UtcOffset::from_minutes(minutes).unwrap()
}

#[test]
fn time_parses_correct_input() {
    for (raw, expected) in [
        ("14:23:43", clock(14, 23, 43, 0)),
        ("14:00:00", clock(14, 0, 0, 0)),
        ("14:00", clock(14, 0, 0, 0)),
        ("14:32", clock(14, 32, 0, 0)),
        ("14:00:00.000", clock(14, 0, 0, 0)),
        ("14:23:43.345", clock(14, 23, 43, 345)),
    ] {
        let input: InputValue<TestScalar> = string_input(raw);
        let parsed = LocalTime::from_input_value(&input);

        assert!(
            parsed.is_ok(),
            "failed to parse `{raw}`: {:?}",
            parsed.unwrap_err(),
        );
        assert_eq!(parsed.unwrap(), expected, "input: {raw}");
    }

    for (raw, expected) in [
        ("1996-12-19T14:23:43", civil(1996, 12, 19, 14, 23, 43)),
        ("1564-01-30T14:00:00", civil(1564, 1, 30, 14, 0, 0)),
    ] {
        let input: InputValue<TestScalar> = string_input(raw);
        let parsed = LocalDateTime::from_input_value(&input);

        assert!(
            parsed.is_ok(),
            "failed to parse `{raw}`: {:?}",
            parsed.unwrap_err(),
        );
        assert_eq!(parsed.unwrap(), expected, "input: {raw}");
    }

    for (raw, expected) in [
        (
            "2014-11-28T21:00:09+09:00",
            instant(2014, 11, 28, 21, 0, 9, 0, 9, 0),
        ),
        ("2014-11-28T21:00:09Z", instant(2014, 11, 28, 21, 0, 9, 0, 0, 0)),
        ("2014-11-28 21:00:09z", instant(2014, 11, 28, 21, 0, 9, 0, 0, 0)),
        (
            "2014-11-28T21:00:09+00:00",
            instant(2014, 11, 28, 21, 0, 9, 0, 0, 0),
        ),
        (
            "2014-11-28T21:00:09.05+09:00",
            instant(2014, 11, 28, 12, 0, 9, 50, 0, 0),
        ),
        (
            "2014-11-28 21:00:09.05+09:00",
            instant(2014, 11, 28, 12, 0, 9, 50, 0, 0),
        ),
    ] {
        let input: InputValue<TestScalar> = string_input(raw);
        let parsed = DateTime::from_input_value(&input);

        assert!(
            parsed.is_ok(),
            "failed to parse `{raw}`: {:?}",
            parsed.unwrap_err(),
        );
        assert_eq!(parsed.unwrap(), expected, "input: {raw}");
    }

    for (raw, expected) in [
        ("+00:00", offset(0)),
        ("-00:00", offset(0)),
        ("+10:00", offset(600)),
        ("-07:30", offset(-450)),
        ("+14:00", offset(840)),
        ("-12:00", offset(-720)),
    ] {
        let input: InputValue<TestScalar> = string_input(raw);
        let parsed = UtcOffset::from_input_value(&input);

        assert!(
            parsed.is_ok(),
            "failed to parse `{raw}`: {:?}",
            parsed.unwrap_err(),
        );
        assert_eq!(parsed.unwrap(), expected, "input: {raw}");
    }
}

#[test]
fn time_fails_on_invalid_input() {
    for input in [
        string_input("12"),
        string_input("12:"),
        string_input("56:34:22"),
        string_input("23:78:43"),
        string_input("23:78:"),
        string_input("23:18:99"),
        string_input("23:18:22.4351"),
        string_input("23:18:22."),
        string_input("23:18:22.3"),
        string_input("23:18:22.03"),
        string_input("22.03"),
        string_input("24:00"),
        string_input("24:00:00"),
        string_input("24:00:00.000"),
        string_input("i'm not even a time"),
        InputValue::scalar(TestScalar::Float(2.32)),
        InputValue::scalar(TestScalar::Int(1)),
        InputValue::null(),
        InputValue::scalar(TestScalar::Boolean(false)),
    ] {
        let input: InputValue<TestScalar> = input;
        let parsed = LocalTime::from_input_value(&input);

        assert!(parsed.is_err(), "allows input: {input:?}");
    }

    for input in [
        string_input("12"),
        string_input("12:"),
        string_input("56:34:22"),
        string_input("56:34:22.000"),
        string_input("1996-12-1914:23:43"),
        string_input("1996-12-19 14:23:43"),
        string_input("1996-12-19Q14:23:43"),
        string_input("1996-12-19T14:23:43Z"),
        string_input("1996-12-19T14:23:43.543"),
        string_input("1996-12-19T14:23"),
        string_input("1996-12-19T14:23:1"),
        string_input("1996-12-19T14:23:"),
        string_input("1996-12-19T23:78:43"),
        string_input("1996-12-19T23:18:99"),
        string_input("1996-12-19T24:00:00"),
        string_input("1996-12-19T99:02:13"),
        string_input("i'm not even a datetime"),
        InputValue::scalar(TestScalar::Float(2.32)),
        InputValue::scalar(TestScalar::Int(1)),
        InputValue::null(),
        InputValue::scalar(TestScalar::Boolean(false)),
    ] {
        let input: InputValue<TestScalar> = input;
        let parsed = LocalDateTime::from_input_value(&input);

        assert!(parsed.is_err(), "allows input: {input:?}");
    }

    for input in [
        string_input("12"),
        string_input("12:"),
        string_input("56:34:22"),
        string_input("56:34:22.000"),
        string_input("1996-12-1914:23:43"),
        string_input("1996-12-19T14:23:43"),
        string_input("1996-12-19T14:23:43ZZ"),
        string_input("1996-12-19T14:23:43.543"),
        string_input("1996-12-19T14:23"),
        string_input("1996-12-19T14:23:1"),
        string_input("1996-12-19T14:23:"),
        string_input("1996-12-19T23:78:43Z"),
        string_input("1996-12-19T23:18:99Z"),
        string_input("1996-12-19T24:00:00Z"),
        string_input("1996-12-19T99:02:13Z"),
        string_input("1996-12-19T99:02:13Z"),
        string_input("1996-12-19T12:02:13+4444444"),
        string_input("i'm not even a datetime"),
        InputValue::scalar(TestScalar::Float(2.32)),
        InputValue::scalar(TestScalar::Int(1)),
        InputValue::null(),
        InputValue::scalar(TestScalar::Boolean(false)),
    ] {
        let input: InputValue<TestScalar> = input;
        let parsed = DateTime::from_input_value(&input);

        assert!(parsed.is_err(), "allows input: {input:?}");
    }

    for input in [
        string_input("12"),
        string_input("12:"),
        string_input("12:00"),
        string_input("+12:"),
        string_input("+12:0"),
        string_input("+12:00:34"),
        string_input("+12"),
        string_input("-12"),
        string_input("-12:"),
        string_input("-12:0"),
        string_input("-12:00:32"),
        string_input("-999:00"),
        string_input("+999:00"),
        string_input("i'm not even an offset"),
        InputValue::scalar(TestScalar::Float(2.32)),
        InputValue::scalar(TestScalar::Int(1)),
        InputValue::null(),
        InputValue::scalar(TestScalar::Boolean(false)),
    ] {
        let input: InputValue<TestScalar> = input;
        let parsed = UtcOffset::from_input_value(&input);

        assert!(parsed.is_err(), "allows input: {input:?}");
    }
}

#[test]
fn time_formats_correctly() {
    for (val, expected) in [
        (
            {
                let t = time::Time::from_hms_micro(1, 2, 3, 4_005).unwrap();
                clock(t.hour(), t.minute(), t.second(), t.millisecond())
            },
            string_input("01:02:03.004"),
        ),
        (clock(0, 0, 0, 0), string_input("00:00:00")),
        (clock(12, 0, 0, 0), string_input("12:00:00")),
        (clock(1, 2, 3, 0), string_input("01:02:03")),
    ] {
        let actual: InputValue<TestScalar> = val.to_input_value();

        assert_eq!(actual, expected, "on value: {val:?}");
    }

    for (val, expected) in [
        (civil(1996, 12, 19, 0, 0, 0), string_input("1996-12-19T00:00:00")),
        (civil(1564, 1, 30, 14, 0, 0), string_input("1564-01-30T14:00:00")),
    ] {
        let actual: InputValue<TestScalar> = val.to_input_value();

        assert_eq!(actual, expected, "on value: {val:?}");
    }

    for (val, expected) in [
        (
            instant(1996, 12, 19, 0, 0, 0, 0, 0, 0),
            string_input("1996-12-19T00:00:00Z"),
        ),
        (
            instant(1564, 1, 30, 14, 0, 0, 0, 9, 0),
            string_input("1564-01-30T05:00:00Z"),
        ),
    ] {
        let actual: InputValue<TestScalar> = val.to_input_value();

        assert_eq!(actual, expected, "on value: {val:?}");
    }

    for (val, expected) in [
        (offset(60), string_input("+01:00")),
        (offset(0), string_input("+00:00")),
        (offset(-150), string_input("-02:30")),
    ] {
        let actual: InputValue<TestScalar> = val.to_input_value();

        assert_eq!(actual, expected, "on value: {val:?}");
    }
}
