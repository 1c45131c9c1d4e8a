use juniper::input_value::{FromInputValue, InputValue, ToInputValue};
use juniper::integrations::bson::{DateTime, ObjectId};
use juniper::scalar::ScalarValue;
use vstd::prelude::Seq;

/// A scalar representation carrying the four primitive kinds, including
/// floats, which some rejected inputs use.
#[derive(Clone, Debug, PartialEq)]
enum TestScalar {
    Int(i32),
    Float(f64),
    String(String),
    Boolean(bool),
}

impl ScalarValue for TestScalar {
    type M = ();

    fn m(&self) -> Self::M {}

    fn txt(_m: Self::M) -> Seq<char> {
        panic!("specification-level function, never run")
    }

    fn str_model(_t: Seq<char>) -> Self::M {}

    fn as_str_model(_m: Self::M) -> Option<Seq<char>> {
        None
    }

    fn int_model(_v: i32) -> Self::M {}

    fn bool_model(_b: bool) -> Self::M {}

    fn sv_clone(&self) -> Self {
        self.clone()
    }

    fn sv_eq(&self, other: &Self) -> bool {
        self == other
    }

    fn render(&self) -> String {
        match self {
            TestScalar::Int(v) => format!("{v}"),
            TestScalar::Float(v) => format!("{v}"),
            TestScalar::String(s) => format!("\"{s}\""),
            TestScalar::Boolean(b) => format!("{b}"),
        }
    }

    fn from_string(s: String) -> Self {
        TestScalar::String(s)
    }

    fn from_int(v: i32) -> Self {
        TestScalar::Int(v)
    }

    fn from_bool(v: bool) -> Self {
        TestScalar::Boolean(v)
    }

    fn as_string(&self) -> Option<&str> {
        match self {
            TestScalar::String(s) => Some(s.as_str()),
            _ => None,
        }
    }
}

fn string_input(raw: &str) -> InputValue<TestScalar> {
    InputValue::scalar(TestScalar::String(raw.to_string()))
}

fn expected_date_time(built: bson::DateTime) -> DateTime {
    DateTime::from_millis(built.timestamp_millis()).unwrap()
}

#[test]
fn objectid_from_input() {
    let raw = "53e37d08776f724e42000000";
    let input: InputValue<TestScalar> = string_input(raw);

    let parsed: ObjectId = FromInputValue::from_input_value(&input).unwrap();
    let id = ObjectId::from_bytes(bson::oid::ObjectId::parse_str(raw).unwrap().bytes().to_vec())
        .unwrap();

    assert_eq!(parsed, id);
}

#[test]
fn bson_parses_correct_input() {
    for (raw, expected) in [
        (
            "2014-11-28T21:00:09+09:00",
            expected_date_time(
                bson::DateTime::builder()
                    .year(2014)
                    .month(11)
                    .day(28)
                    .hour(12)
                    .second(9)
                    .build()
                    .unwrap(),
            ),
        ),
        (
            "2014-11-28T21:00:09Z",
            expected_date_time(
                bson::DateTime::builder()
                    .year(2014)
                    .month(11)
                    .day(28)
                    .hour(21)
                    .second(9)
                    .build()
                    .unwrap(),
            ),
        ),
        (
            "2014-11-28 21:00:09z",
            expected_date_time(
                bson::DateTime::builder()
                    .year(2014)
                    .month(11)
                    .day(28)
                    .hour(21)
                    .second(9)
                    .build()
                    .unwrap(),
            ),
        ),
        (
            "2014-11-28T21:00:09+00:00",
            expected_date_time(
                bson::DateTime::builder()
                    .year(2014)
                    .month(11)
                    .day(28)
                    .hour(21)
                    .second(9)
                    .build()
                    .unwrap(),
            ),
        ),
        (
            "2014-11-28T21:00:09.05+09:00",
            expected_date_time(
                bson::DateTime::builder()
                    .year(2014)
                    .month(11)
                    .day(28)
                    .hour(12)
                    .second(9)
                    .millisecond(50)
                    .build()
                    .unwrap(),
            ),
        ),
        (
            "2014-11-28 21:00:09.05+09:00",
            expected_date_time(
                bson::DateTime::builder()
                    .year(2014)
                    .month(11)
                    .day(28)
                    .hour(12)
                    .second(9)
                    .millisecond(50)
                    .build()
                    .unwrap(),
            ),
        ),
    ] {
        let input: InputValue<TestScalar> = string_input(raw);
        let parsed = DateTime::from_input_value(&input);

        assert!(
            parsed.is_ok(),
            "failed to parse `{raw}`: {:?}",
            parsed.unwrap_err(),
        );
        assert_eq!(parsed.unwrap(), expected, "input: {raw}");
    }
}

#[test]
fn bson_fails_on_invalid_input() {
    for input in [
        string_input("12"),
        string_input("12:"),
        string_input("56:34:22"),
        string_input("56:34:22.000"),
        string_input("1996-12-1914:23:43"),
        string_input("1996-12-19T14:23:43"),
        string_input("1996-12-19T14:23:43ZZ"),
        string_input("1996-12-19T14:23:43.543"),
        string_input("1996-12-19T14:23"),
        string_input("1996-12-19T14:23:1"),
        string_input("1996-12-19T14:23:"),
        string_input("1996-12-19T23:78:43Z"),
        string_input("1996-12-19T23:18:99Z"),
        string_input("1996-12-19T24:00:00Z"),
        string_input("1996-12-19T99:02:13Z"),
        string_input("1996-12-19T99:02:13Z"),
        string_input("1996-12-19T12:02:13+4444444"),
        string_input("i'm not even a datetime"),
        InputValue::scalar(TestScalar::Float(2.32)),
        InputValue::scalar(TestScalar::Int(1)),
        InputValue::null(),
        InputValue::scalar(TestScalar::Boolean(false)),
    ] {
        let input: InputValue<TestScalar> = input;
        let parsed = DateTime::from_input_value(&input);

        assert!(parsed.is_err(), "allows input: {input:?}");
    }
}

#[test]
fn bson_formats_correctly() {
    for (val, expected) in [
        (
            expected_date_time(
                bson::DateTime::builder()
                    .year(1996)
                    .month(12)
                    .day(19)
                    .hour(12)
                    .build()
                    .unwrap(),
            ),
            string_input("1996-12-19T12:00:00Z"),
        ),
        (
            expected_date_time(
                bson::DateTime::builder()
                    .year(1564)
                    .month(1)
                    .day(30)
                    .hour(5)
                    .minute(3)
                    .second(3)
                    .millisecond(1)
                    .build()
                    .unwrap(),
            ),
            string_input("1564-01-30T05:03:03.001Z"),
        ),
    ] {
        let actual: InputValue<TestScalar> = val.to_input_value();

        assert_eq!(actual, expected, "on value: {val:?}");
    }
}
