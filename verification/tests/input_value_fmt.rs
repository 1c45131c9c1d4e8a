use juniper::input_value::InputValue;
use juniper::scalar::ScalarValue;
use vstd::prelude::Seq;

/// A scalar representation carrying the four primitive kinds, including
/// floats, which the test queries render.
#[derive(Clone, Debug, PartialEq)]
enum TestScalar {
    Int(i32),
    Float(f64),
    String(String),
    Boolean(bool),
}

impl ScalarValue for TestScalar {
    type M = ();

    fn m(&self) -> Self::M {}

    fn txt(_m: Self::M) -> Seq<char> {
        panic!("specification-level function, never run")
    }

    fn str_model(_t: Seq<char>) -> Self::M {}

    fn as_str_model(_m: Self::M) -> Option<Seq<char>> {
        None
    }

    fn int_model(_v: i32) -> Self::M {}

    fn bool_model(_b: bool) -> Self::M {}

    fn sv_clone(&self) -> Self {
        self.clone()
    }

    fn sv_eq(&self, other: &Self) -> bool {
        self == other
    }

    fn render(&self) -> String {
        match self {
            TestScalar::Int(v) => format!("{v}"),
            TestScalar::Float(v) => format!("{v}"),
            TestScalar::String(s) => format!("\"{s}\""),
            TestScalar::Boolean(b) => format!("{b}"),
        }
    }

    fn from_string(s: String) -> Self {
        TestScalar::String(s)
    }

    fn from_int(v: i32) -> Self {
        TestScalar::Int(v)
    }

    fn from_bool(v: bool) -> Self {
        TestScalar::Boolean(v)
    }

    fn as_string(&self) -> Option<&str> {
        match self {
            TestScalar::String(s) => Some(s.as_str()),
            _ => None,
        }
    }
}

#[test]
fn correct() {
    let value: InputValue<TestScalar> = InputValue::null();
    assert_eq!(value.render(), "null");

    let value: InputValue<TestScalar> = InputValue::scalar(TestScalar::Int(123));
    assert_eq!(value.render(), "123");

    let value: InputValue<TestScalar> = InputValue::scalar(TestScalar::Float(12.3));
    assert_eq!(value.render(), "12.3");

    let value: InputValue<TestScalar> = InputValue::scalar(TestScalar::String("FOO".to_string()));
    assert_eq!(value.render(), "\"FOO\"");

    let value: InputValue<TestScalar> = InputValue::scalar(TestScalar::Boolean(true));
    assert_eq!(value.render(), "true");

    let value: InputValue<TestScalar> = InputValue::enum_value("BAR");
    assert_eq!(value.render(), "BAR");

    let value: InputValue<TestScalar> = InputValue::variable("baz");
    assert_eq!(value.render(), "$baz");

    let value: InputValue<TestScalar> = InputValue::list(vec![
        InputValue::scalar(TestScalar::Int(1)),
        InputValue::scalar(TestScalar::Int(2)),
    ]);
    assert_eq!(value.render(), "[1, 2]");

    let value: InputValue<TestScalar> = InputValue::object(vec![
        ("foo".to_string(), InputValue::scalar(TestScalar::Int(1))),
        ("bar".to_string(), InputValue::scalar(TestScalar::Int(2))),
    ]);
    assert_eq!(value.render(), "{foo: 1, bar: 2}");
}
