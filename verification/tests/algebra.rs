use juniper::ast::{Arguments, Type};
use juniper::input_value::{FromInputValue, InputValue, IntoInputValue, Variables};
use juniper::integrations::bson::{DateTime as BsonDateTime, ObjectId};
use juniper::integrations::time::{DateTime, LocalDate};
use juniper::scalar::DefaultScalarValue;
use juniper::span::{SourcePosition, Span, Spanning};

type Value = InputValue<DefaultScalarValue>;

fn sv_str(s: &str) -> Value {
    InputValue::scalar(DefaultScalarValue::String(s.to_string()))
}

fn sv_int(i: i32) -> Value {
    InputValue::scalar(DefaultScalarValue::Int(i))
}

fn span(a: usize, b: usize) -> Span {
    Span {
        start: SourcePosition { index: a, line: 0, column: a },
        end: SourcePosition { index: b, line: 0, column: b },
    }
}

#[test]
fn renders_default_scalars() {
    assert_eq!(sv_int(123).render(), "123");
    assert_eq!(sv_int(-5).render(), "-5");
    assert_eq!(sv_str("FOO").render(), "\"FOO\"");
    let t: Value = InputValue::scalar(DefaultScalarValue::Boolean(true));
    assert_eq!(t.render(), "true");
    let f: Value = InputValue::scalar(DefaultScalarValue::Boolean(false));
    assert_eq!(f.render(), "false");
}

#[test]
fn finds_referenced_variables() {
    let v: Value = InputValue::variable("x");
    assert_eq!(v.referenced_variables(), vec!["x"]);

    let null: Value = InputValue::null();
    assert_eq!(null.referenced_variables(), Vec::<&str>::new());
    assert_eq!(sv_int(1).referenced_variables(), Vec::<&str>::new());
    let e: Value = InputValue::enum_value("RED");
    assert_eq!(e.referenced_variables(), Vec::<&str>::new());

    let nested: Value = InputValue::object(vec![
        ("a".to_string(), InputValue::variable("x")),
        (
            "b".to_string(),
            InputValue::list(vec![InputValue::variable("y"), InputValue::variable("x")]),
        ),
    ]);
    assert_eq!(nested.referenced_variables(), vec!["x", "y", "x"]);
}

#[test]
fn folds_bound_and_unbound_variables() {
    // {foo: $a, bar: [$b, 1]} with {a: "hi"}: $b is unbound, so the list
    // keeps its length with a null in its place.
    let literal = || -> Value {
        InputValue::object(vec![
            ("foo".to_string(), InputValue::variable("a")),
            (
                "bar".to_string(),
                InputValue::list(vec![InputValue::variable("b"), sv_int(1)]),
            ),
        ])
    };

    let mut vars: Variables<DefaultScalarValue> = Variables::new();
    vars.insert("a", sv_str("hi"));

    let folded = literal().into_const(&vars).unwrap();
    let expected: Value = InputValue::object(vec![
        ("foo".to_string(), sv_str("hi")),
        (
            "bar".to_string(),
            InputValue::list(vec![InputValue::null(), sv_int(1)]),
        ),
    ]);
    assert!(folded.unlocated_eq(&expected), "folded: {folded:?}");

    // The same literal with no bindings: key `foo` is dropped entirely,
    // `bar` keeps length 2 with a null in $b's position.
    let empty: Variables<DefaultScalarValue> = Variables::new();
    let folded = literal().into_const(&empty).unwrap();
    let expected: Value = InputValue::object(vec![(
        "bar".to_string(),
        InputValue::list(vec![InputValue::null(), sv_int(1)]),
    )]);
    assert!(folded.unlocated_eq(&expected), "folded: {folded:?}");

    // A bare unbound variable fails to fold at all.
    let bare: Value = InputValue::variable("missing");
    assert!(bare.into_const(&empty).is_none());

    // Folding a variable-free value is the identity.
    let plain = || -> Value {
        InputValue::object(vec![("n".to_string(), sv_int(7))])
    };
    assert!(plain().into_const(&empty).unwrap().unlocated_eq(&plain()));
}

#[test]
fn equality_ignores_spans() {
    let located: Value = InputValue::parsed_list(vec![
        Spanning::located(sv_int(1), span(1, 2)),
        Spanning::located(sv_int(2), span(4, 5)),
    ]);
    let unlocated: Value = InputValue::list(vec![sv_int(1), sv_int(2)]);
    assert!(located.unlocated_eq(&unlocated));
    assert!(unlocated.unlocated_eq(&located));

    let other: Value = InputValue::list(vec![sv_int(1), sv_int(3)]);
    assert!(!located.unlocated_eq(&other));

    let shorter: Value = InputValue::list(vec![sv_int(1)]);
    assert!(!located.unlocated_eq(&shorter));
}

#[test]
fn object_equality_matches_any_entry() {
    // The object comparison pairs each left entry with any matching right
    // entry, so with duplicate keys it is not symmetric: a known quirk,
    // kept faithfully.
    let doubled: Value = InputValue::object(vec![
        ("a".to_string(), sv_int(1)),
        ("a".to_string(), sv_int(1)),
    ]);
    let mixed: Value = InputValue::object(vec![
        ("a".to_string(), sv_int(1)),
        ("a".to_string(), sv_int(2)),
    ]);
    assert!(doubled.unlocated_eq(&mixed));
    assert!(!mixed.unlocated_eq(&doubled));
}

#[test]
fn projects_lists_and_objects() {
    let list: Value = InputValue::list(vec![sv_int(1), sv_int(2)]);
    let refs = list.to_list_value().unwrap();
    assert_eq!(refs.len(), 2);
    assert_eq!(refs[0].render(), "1");
    assert_eq!(refs[1].render(), "2");
    assert!(sv_int(1).to_list_value().is_none());

    // Duplicate keys collapse as a uniqueness-enforcing ordered map would
    // collapse them: first occurrence keeps the position, last value wins.
    let object: Value = InputValue::object(vec![
        ("a".to_string(), sv_int(1)),
        ("b".to_string(), sv_int(2)),
        ("a".to_string(), sv_int(3)),
    ]);
    let entries = object.to_object_value().unwrap();
    assert_eq!(entries.len(), 2);
    assert_eq!(entries[0].0, "a");
    assert_eq!(entries[0].1.render(), "3");
    assert_eq!(entries[1].0, "b");
    assert_eq!(entries[1].1.render(), "2");
    assert!(list.to_object_value().is_none());

    // The object itself keeps its duplicate entries in storage order.
    assert_eq!(object.render(), "{a: 1, b: 2, a: 3}");
}

#[test]
fn spans_attach_and_map() {
    let sp = span(3, 7);
    let located = Spanning::located(41i32, sp);
    assert_eq!(located.item, 41);
    assert_eq!(located.span, Some(sp));

    let mapped = located.map(|v| v + 1);
    assert_eq!(mapped.item, 42);
    assert_eq!(mapped.span, Some(sp));

    let unlocated = Spanning::unlocated("x");
    assert_eq!(unlocated.item, "x");
    assert_eq!(unlocated.span, None);
}

#[test]
fn renders_parsed_entries_with_their_keys() {
    let object: Value = InputValue::parsed_object(vec![
        (
            Spanning::located("foo".to_string(), span(1, 4)),
            Spanning::located(sv_int(1), span(6, 7)),
        ),
        (
            Spanning::unlocated("bar".to_string()),
            Spanning::unlocated(sv_int(2)),
        ),
    ]);
    assert_eq!(object.render(), "{foo: 1, bar: 2}");

    let list: Value = InputValue::parsed_list(vec![
        Spanning::located(sv_int(1), span(1, 2)),
        Spanning::unlocated(sv_int(2)),
    ]);
    assert_eq!(list.render(), "[1, 2]");

    let empty_list: Value = InputValue::list(vec![]);
    assert_eq!(empty_list.render(), "[]");
    let empty_object: Value = InputValue::object(vec![]);
    assert_eq!(empty_object.render(), "{}");
}

#[test]
fn inspects_variants() {
    let null: Value = InputValue::null();
    assert!(null.is_null());
    assert!(!null.is_variable());

    let var: Value = InputValue::variable("v");
    assert!(var.is_variable());
    assert!(!var.is_null());

    let e: Value = InputValue::enum_value("RED");
    assert_eq!(e.as_enum_value(), Some("RED"));
    assert_eq!(null.as_enum_value(), None);

    let s = sv_str("hi");
    assert!(matches!(
        s.as_scalar(),
        Some(DefaultScalarValue::String(t)) if t == "hi"
    ));
    assert!(null.as_scalar().is_none());
}

#[test]
fn type_literals_expose_their_leaf() {
    let deep = Type::NonNullList(
        Box::new(Type::List(Box::new(Type::NonNullNamed("Int".to_string())), None)),
        Some(3),
    );
    assert_eq!(deep.innermost_name(), "Int");
    assert_eq!(deep.name(), None);
    assert!(deep.is_non_null());
    assert_eq!(deep.render(), "[[Int!]]!");

    let named = Type::Named("String".to_string());
    assert_eq!(named.name(), Some("String"));
    assert_eq!(named.innermost_name(), "String");
    assert!(!named.is_non_null());
    assert_eq!(named.render(), "String");

    let non_null = Type::NonNullNamed("ID".to_string());
    assert_eq!(non_null.name(), Some("ID"));
    assert!(non_null.is_non_null());
    assert_eq!(non_null.render(), "ID!");

    let list = Type::List(Box::new(Type::Named("Int".to_string())), None);
    assert!(!list.is_non_null());
    assert_eq!(list.render(), "[Int]");
}

#[test]
fn arguments_look_up_first_match() {
    let args: Arguments<'_, DefaultScalarValue> = Arguments {
        items: vec![
            (Spanning::unlocated("x"), Spanning::unlocated(sv_int(1))),
            (Spanning::unlocated("y"), Spanning::unlocated(sv_int(2))),
            (Spanning::unlocated("x"), Spanning::unlocated(sv_int(3))),
        ],
    };
    assert_eq!(args.len(), 3);
    assert_eq!(args.get("x").unwrap().item.render(), "1");
    assert_eq!(args.get("y").unwrap().item.render(), "2");
    assert!(args.get("z").is_none());

    let names: Vec<&str> = args.iter().map(|(k, _)| k.item).collect();
    assert_eq!(names, vec!["x", "y", "x"]);
    let owned: Vec<String> = args.into_iter().map(|(k, _)| k.item.to_string()).collect();
    assert_eq!(owned, vec!["x", "y", "x"]);
}

#[test]
fn variables_shadow_earlier_bindings() {
    let mut vars: Variables<DefaultScalarValue> = Variables::new();
    assert!(vars.get("a").is_none());
    vars.insert("a", sv_int(1));
    vars.insert("b", sv_int(2));
    vars.insert("a", sv_int(3));
    assert_eq!(vars.get("a").unwrap().render(), "3");
    assert_eq!(vars.get("b").unwrap().render(), "2");
    assert!(vars.get("c").is_none());
}

#[test]
fn converts_primitive_values() {
    let v: Value = IntoInputValue::into_input_value(42i32);
    assert_eq!(v.render(), "42");
    let v: Value = IntoInputValue::into_input_value(true);
    assert_eq!(v.render(), "true");
    let v: Value = IntoInputValue::into_input_value("hi".to_string());
    assert_eq!(v.render(), "\"hi\"");
    let v: Value = IntoInputValue::into_input_value(None::<String>);
    assert!(v.is_null());
    let v: Value = IntoInputValue::into_input_value(Some("hi".to_string()));
    assert_eq!(v.render(), "\"hi\"");
    let v: Value = IntoInputValue::into_input_value(arcstr::ArcStr::from("shared"));
    assert_eq!(v.render(), "\"shared\"");
    let inner: Value = sv_int(7);
    let v: Value = IntoInputValue::into_input_value(inner);
    assert_eq!(v.render(), "7");
}

#[test]
fn convert_routes_through_from_input_value() {
    let input = sv_str("1996-12-19");
    let parsed: LocalDate = input.convert().unwrap();
    assert_eq!(parsed, LocalDate { year: 1996, month: 12, day: 19 });

    let bad = sv_str("not a date");
    assert_eq!(
        bad.convert::<LocalDate>().unwrap_err(),
        "Invalid `LocalDate`: unrecognized format",
    );

    let invalid_day = sv_str("2021-11-31");
    assert_eq!(
        invalid_day.convert::<LocalDate>().unwrap_err(),
        "Invalid `LocalDate`: unrecognized format",
    );

    let not_a_string: Value = sv_int(7);
    assert_eq!(
        not_a_string.convert::<LocalDate>().unwrap_err(),
        "Invalid `LocalDate`: not a string",
    );

    let implicit: Result<LocalDate, _> =
        <LocalDate as FromInputValue<DefaultScalarValue>>::from_implicit_null();
    assert_eq!(implicit.unwrap_err(), "Invalid `LocalDate`: not a string");
}

#[test]
fn rejects_instants_outside_rfc3339_range() {
    // RFC 3339 bounds the written local components; with an offset the UTC
    // instant can still leave the writable range, and such inputs are
    // rejected rather than accepted unrenderable.
    let before_year_zero = sv_str("0000-01-01T00:00:00+00:01");
    assert_eq!(
        before_year_zero.convert::<DateTime>().unwrap_err(),
        "Invalid `DateTime`: out of range",
    );
    assert_eq!(
        before_year_zero.convert::<BsonDateTime>().unwrap_err(),
        "Failed to parse `DateTime`: out of range",
    );

    let past_year_9999 = sv_str("9999-12-31T23:59:59-00:01");
    assert_eq!(
        past_year_9999.convert::<DateTime>().unwrap_err(),
        "Invalid `DateTime`: out of range",
    );
    // The millisecond-precision instant keeps no upper bound: rendering
    // clamps to the latest writable instant instead.
    assert!(past_year_9999.convert::<BsonDateTime>().is_ok());
}

#[test]
fn object_id_round_trips_hex() {
    let input = sv_str("53E37D08776F724E42000000");
    let parsed: ObjectId = input.convert().unwrap();
    assert_eq!(parsed.to_hex(), "53e37d08776f724e42000000");

    assert_eq!(
        sv_str("53e37d08776f724e4200000").convert::<ObjectId>().unwrap_err(),
        "Failed to parse `ObjectID`: not a 24-digit hex string",
    );
    assert_eq!(
        sv_str("53e37d08776f724e4200000g").convert::<ObjectId>().unwrap_err(),
        "Failed to parse `ObjectID`: not a 24-digit hex string",
    );
    let not_a_string: Value = InputValue::null();
    assert_eq!(
        not_a_string.convert::<ObjectId>().unwrap_err(),
        "Failed to parse `ObjectID`: not a string",
    );
}
