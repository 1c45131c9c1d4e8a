use juniper::input_value::{FromInputValue, InputValue, ToInputValue};
use juniper::integrations::time::LocalDate;
use juniper::scalar::ScalarValue;
use vstd::prelude::Seq;

/// A scalar representation carrying the four primitive kinds, including
/// floats, which some rejected inputs use.
#[derive(Clone, Debug, PartialEq)]
enum TestScalar {
    Int(i32),
    Float(f64),
    String(String),
    Boolean(bool),
}

impl ScalarValue for TestScalar {
    type M = ();

    fn m(&self) -> Self::M {}

    fn txt(_m: Self::M) -> Seq<char> {
        panic!("specification-level function, never run")
    }

    fn str_model(_t: Seq<char>) -> Self::M {}

    fn as_str_model(_m: Self::M) -> Option<Seq<char>> {
        None
    }

    fn int_model(_v: i32) -> Self::M {}

    fn bool_model(_b: bool) -> Self::M {}

    fn sv_clone(&self) -> Self {
        self.clone()
    }

    fn sv_eq(&self, other: &Self) -> bool {
        self == other
    }

    fn render(&self) -> String {
        match self {
            TestScalar::Int(v) => format!("{v}"),
            TestScalar::Float(v) => format!("{v}"),
            TestScalar::String(s) => format!("\"{s}\""),
            TestScalar::Boolean(b) => format!("{b}"),
        }
    }

    fn from_string(s: String) -> Self {
        TestScalar::String(s)
    }

    fn from_int(v: i32) -> Self {
        TestScalar::Int(v)
    }

    fn from_bool(v: bool) -> Self {
        TestScalar::Boolean(v)
    }

    fn as_string(&self) -> Option<&str> {
        match self {
            TestScalar::String(s) => Some(s.as_str()),
            _ => None,
        }
    }
}

fn string_input(raw: &str) -> InputValue<TestScalar> {
    InputValue::scalar(TestScalar::String(raw.to_string()))
}

fn date(year: i32, month: u8, day: u8) -> LocalDate {
    LocalDate::new(year, month, day).unwrap()
}

fn local_date_of(d: time::Date) -> LocalDate {
    date(d.year(), u8::from(d.month()), d.day())
}

#[test]
fn parses_correct_input() {
    for (raw, expected) in [
        ("1996-12-19", date(1996, 12, 19)),
        ("1564-01-30", date(1564, 1, 30)),
    ] {
        let input: InputValue<TestScalar> = string_input(raw);
        let parsed = LocalDate::from_input_value(&input);

        assert!(
            parsed.is_ok(),
            "failed to parse `{raw}`: {:?}",
            parsed.unwrap_err(),
        );
        assert_eq!(parsed.unwrap(), expected, "input: {raw}");
    }
}

#[test]
fn fails_on_invalid_input() {
    for input in [
        string_input("1996-13-19"),
        string_input("1564-01-61"),
        string_input("2021-11-31"),
        string_input("11-31"),
        string_input("2021-11"),
        string_input("2021"),
        string_input("31"),
        string_input("i'm not even a date"),
        InputValue::scalar(TestScalar::Float(2.32)),
        InputValue::scalar(TestScalar::Int(1)),
        InputValue::null(),
        InputValue::scalar(TestScalar::Boolean(false)),
    ] {
        let input: InputValue<TestScalar> = input;
        let parsed = LocalDate::from_input_value(&input);

        assert!(parsed.is_err(), "allows input: {input:?}");
    }
}

#[test]
fn formats_correctly() {
    for (val, expected) in [
        (date(1996, 12, 19), string_input("1996-12-19")),
        (date(1564, 1, 30), string_input("1564-01-30")),
        (
            local_date_of(
                time::Date::from_iso_week_date(2020, 1, time::Weekday::Wednesday).unwrap(),
            ),
            string_input("2020-01-01"),
        ),
        (
            local_date_of(time::Date::from_ordinal_date(2020, 1).unwrap()),
            string_input("2020-01-01"),
        ),
    ] {
        let actual: InputValue<TestScalar> = val.to_input_value();

        assert_eq!(actual, expected, "on value: {val:?}");
    }
}
