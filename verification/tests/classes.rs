use jsonish::coercer::coerce;
use jsonish::coercer::coerce_class::{coerce_class, find_entry, lookup_field};
use jsonish::context::ParsingContext;
use jsonish::error::ErrorKind;
use jsonish::field_type::{FieldType, TypeValue};
use jsonish::flags::Flag;
use jsonish::schema::{ClassDescriptor, FieldDescriptor, Name, Schema};
use jsonish::typed::{BamlValue, BamlValueWithFlags};
use jsonish::value::{Number, Value, ValueShape};

fn text_type() -> FieldType {
    FieldType::Primitive(TypeValue::String)
}

fn optional(inner: FieldType) -> FieldType {
    FieldType::Optional(Box::new(inner))
}

fn field(name: &str, field_type: FieldType) -> FieldDescriptor {
    FieldDescriptor {
        name: Name { name: name.to_string(), alias: None },
        field_type,
        description: None,
    }
}

fn aliased(name: &str, alias: &str, field_type: FieldType) -> FieldDescriptor {
    FieldDescriptor {
        name: Name { name: name.to_string(), alias: Some(alias.to_string()) },
        field_type,
        description: None,
    }
}

fn class(name: &str, fields: Vec<FieldDescriptor>) -> ClassDescriptor {
    ClassDescriptor { name: Name { name: name.to_string(), alias: None }, fields }
}

fn ordered_schema() -> Schema {
    let mut schema = Schema::new();
    schema.classes.push(class(
        "OrderedClass",
        vec![
            field("one", optional(text_type())),
            field("two", text_type()),
            field("three", optional(text_type())),
            field("four", text_type()),
        ],
    ));
    schema
}

fn words(s: &str) -> Value {
    Value::String(s.to_string())
}

fn object(entries: Vec<(&str, Value)>) -> Value {
    Value::Object(entries.into_iter().map(|(k, v)| (k.to_string(), v)).collect())
}

fn field_names(value: &BamlValueWithFlags) -> Vec<String> {
    match value {
        BamlValueWithFlags::Class(_, _, fields) => fields.iter().map(|f| f.0.clone()).collect(),
        other => panic!("a class was expected, not {:?}", other),
    }
}

#[test]
fn class_fields_come_in_declaration_order() {
    let schema = ordered_schema();
    let ctx = ParsingContext::new(&schema);
    let target = FieldType::Class("OrderedClass".to_string());
    let orders: Vec<Vec<&str>> = vec![
        vec!["one", "two", "three", "four"],
        vec!["four", "three", "two", "one"],
        vec!["two", "four", "one", "three"],
        vec!["three", "one", "four", "two"],
    ];
    for order in orders {
        let input = object(order.iter().map(|k| (*k, words(k))).collect());
        let result = coerce(&ctx, &target, Some(&input)).expect("a class comes out");
        assert_eq!(field_names(&result), vec!["one", "two", "three", "four"]);
        assert_eq!(
            result.to_plain(),
            BamlValue::Class(
                "OrderedClass".to_string(),
                vec![
                    ("one".to_string(), BamlValue::String("one".to_string())),
                    ("two".to_string(), BamlValue::String("two".to_string())),
                    ("three".to_string(), BamlValue::String("three".to_string())),
                    ("four".to_string(), BamlValue::String("four".to_string())),
                ]
            )
        );
        assert!(result.conditions().flags().is_empty());
        assert_eq!(result.score(), 0);
    }
}

#[test]
fn missing_optional_field_is_null_with_a_flag() {
    let schema = ordered_schema();
    let ctx = ParsingContext::new(&schema);
    let target = FieldType::Class("OrderedClass".to_string());
    let input = object(vec![("four", words("4")), ("two", words("2"))]);
    let result = coerce(&ctx, &target, Some(&input)).expect("a class comes out");
    assert_eq!(
        result.to_plain(),
        BamlValue::Class(
            "OrderedClass".to_string(),
            vec![
                ("one".to_string(), BamlValue::Null),
                ("two".to_string(), BamlValue::String("2".to_string())),
                ("three".to_string(), BamlValue::Null),
                ("four".to_string(), BamlValue::String("4".to_string())),
            ]
        )
    );
    let BamlValueWithFlags::Class(_, flags, fields) = &result else {
        panic!("a class comes out");
    };
    assert!(flags.flags().is_empty());
    assert_eq!(fields[0].1.conditions().flags(), &vec![Flag::OptionalDefaultFromNoValue]);
    assert_eq!(result.score(), 2);
}

#[test]
fn missing_required_field_is_left_out_with_a_flag() {
    let schema = ordered_schema();
    let ctx = ParsingContext::new(&schema).enter_scope("root");
    let target = FieldType::Class("OrderedClass".to_string());
    let input = object(vec![("one", words("1")), ("four", words("4"))]);
    let result = coerce(&ctx, &target, Some(&input)).expect("the class does not fail");
    assert_eq!(field_names(&result), vec!["one", "three", "four"]);
    match &result.conditions().flags()[..] {
        [Flag::FieldParseError(name, error)] => {
            assert_eq!(name, "two");
            assert_eq!(error.kind, ErrorKind::MissingRequiredField);
            assert_eq!(error.scope, vec!["root".to_string(), "two".to_string()]);
            assert_eq!(error.target, text_type());
            assert_eq!(error.found, None);
        }
        other => panic!("one field flag was expected, not {:?}", other),
    }
    assert_eq!(result.score(), 101);
}

#[test]
fn field_that_cannot_be_coerced_is_left_out_with_its_failure() {
    let schema = ordered_schema();
    let ctx = ParsingContext::new(&schema);
    let target = FieldType::Class("OrderedClass".to_string());
    let input = object(vec![
        ("one", Value::Bool(true)),
        ("two", Value::Number(Number::Int(2))),
        ("three", words("3")),
        ("four", words("4")),
    ]);
    let result = coerce(&ctx, &target, Some(&input)).expect("the class does not fail");
    // The optional field turns what it cannot take into null; the required one is left out.
    assert_eq!(field_names(&result), vec!["one", "three", "four"]);
    match &result.conditions().flags()[..] {
        [Flag::FieldParseError(name, error)] => {
            assert_eq!(name, "two");
            assert_eq!(error.kind, ErrorKind::UnexpectedType);
            assert_eq!(error.found, Some(ValueShape::Number));
        }
        other => panic!("one field flag was expected, not {:?}", other),
    }
}

#[test]
fn empty_object_gives_a_class_of_its_optional_fields() {
    let schema = ordered_schema();
    let ctx = ParsingContext::new(&schema);
    let target = FieldType::Class("OrderedClass".to_string());
    let result = coerce(&ctx, &target, Some(&object(vec![]))).expect("the class does not fail");
    assert_eq!(field_names(&result), vec!["one", "three"]);
    assert_eq!(result.conditions().flags().len(), 2);
}

#[test]
fn fields_are_found_by_name_before_alias() {
    let mut schema = Schema::new();
    schema.classes.push(class(
        "Book",
        vec![aliased("title", "name", text_type()), aliased("popularityOverTime", "popularityData", text_type())],
    ));
    let ctx = ParsingContext::new(&schema);
    let target = FieldType::Class("Book".to_string());
    let by_alias = object(vec![("popularityData", words("p")), ("name", words("n"))]);
    let result = coerce(&ctx, &target, Some(&by_alias)).expect("a class comes out");
    assert_eq!(
        result.to_plain(),
        BamlValue::Class(
            "Book".to_string(),
            vec![
                ("title".to_string(), BamlValue::String("n".to_string())),
                ("popularityOverTime".to_string(), BamlValue::String("p".to_string())),
            ]
        )
    );
    let both = object(vec![("name", words("alias")), ("title", words("name"))]);
    let result = coerce(&ctx, &target, Some(&both)).expect("a class comes out");
    assert_eq!(field_names(&result), vec!["title"]);
    assert_eq!(
        result.to_plain(),
        BamlValue::Class(
            "Book".to_string(),
            vec![("title".to_string(), BamlValue::String("name".to_string()))]
        )
    );
}

#[test]
fn lookup_takes_the_first_entry_under_a_key() {
    let entries = vec![
        ("a".to_string(), words("first")),
        ("b".to_string(), words("b")),
        ("a".to_string(), words("second")),
    ];
    assert_eq!(find_entry(&entries, "a"), Some(0));
    assert_eq!(find_entry(&entries, "b"), Some(1));
    assert_eq!(find_entry(&entries, "c"), None);
    assert_eq!(find_entry(&entries, ""), None);
    assert_eq!(lookup_field(&entries, &field("a", text_type())), Some(&words("first")));
    assert_eq!(lookup_field(&entries, &aliased("x", "b", text_type())), Some(&words("b")));
    assert_eq!(lookup_field(&entries, &aliased("x", "y", text_type())), None);
    assert_eq!(lookup_field(&entries, &field("x", text_type())), None);
}

#[test]
fn keys_that_no_field_wants_are_ignored() {
    let schema = ordered_schema();
    let ctx = ParsingContext::new(&schema);
    let target = FieldType::Class("OrderedClass".to_string());
    let input = object(vec![
        ("two", words("2")),
        ("extra", words("x")),
        ("four", words("4")),
        ("ONE", words("1")),
    ]);
    let result = coerce(&ctx, &target, Some(&input)).expect("a class comes out");
    assert_eq!(field_names(&result), vec!["one", "two", "three", "four"]);
    assert!(result.conditions().flags().is_empty());
}

#[test]
fn class_must_be_in_the_schema_and_the_value_an_object() {
    let schema = ordered_schema();
    let ctx = ParsingContext::new(&schema);
    let unknown = FieldType::Class("Nowhere".to_string());
    let error = coerce(&ctx, &unknown, Some(&object(vec![]))).expect_err("no such class");
    assert_eq!(error.kind, ErrorKind::UnknownType);
    assert_eq!(error.target, unknown);
    let target = FieldType::Class("OrderedClass".to_string());
    for value in [words("{}"), Value::Array(vec![]), Value::Null, Value::Bool(false)] {
        let error = coerce(&ctx, &target, Some(&value)).expect_err("no object");
        assert_eq!(error.kind, ErrorKind::UnexpectedType);
        assert_eq!(error.found, Some(value.shape()));
    }
    let error = coerce_class(&ctx, &text_type(), &object(vec![])).expect_err("the target is no class");
    assert_eq!(error.kind, ErrorKind::UnexpectedType);
}

fn linked_list_schema() -> Schema {
    let mut schema = Schema::new();
    schema.classes.push(class(
        "Node",
        vec![
            field("value", FieldType::Primitive(TypeValue::Int)),
            field("next", optional(FieldType::Class("Node".to_string()))),
        ],
    ));
    schema.recursive_cycles.push(vec!["Node".to_string()]);
    schema
}

fn chain(length: usize) -> Value {
    let mut value = object(vec![("value", Value::Number(Number::Int(0)))]);
    for i in 1..length {
        value = object(vec![("value", Value::Number(Number::Int(i as i64))), ("next", value)]);
    }
    value
}

fn chain_length(value: &BamlValue) -> usize {
    match value {
        BamlValue::Class(_, fields) => {
            let next = fields.iter().find(|f| f.0 == "next").expect("next is optional");
            1 + chain_length(&next.1)
        }
        _ => 0,
    }
}

#[test]
fn classes_that_refer_to_themselves_are_coerced() {
    let schema = linked_list_schema();
    assert_eq!(schema.finite_recursive_cycles(), &vec![vec!["Node".to_string()]]);
    let ctx = ParsingContext::new(&schema);
    let target = FieldType::Class("Node".to_string());
    let result = coerce(&ctx, &target, Some(&chain(3))).expect("a short chain");
    assert_eq!(chain_length(&result.to_plain()), 3);
    let deep = coerce(&ctx, &target, Some(&chain(100))).expect("a long chain");
    assert_eq!(chain_length(&deep.to_plain()), 100);
}

#[test]
fn the_recursion_guard_stops_descent() {
    let schema = linked_list_schema();
    let target = FieldType::Class("Node".to_string());
    let ctx = ParsingContext::with_limit(&schema, 3);
    let whole = coerce(&ctx, &target, Some(&chain(3))).expect("as deep as the limit");
    assert_eq!(chain_length(&whole.to_plain()), 3);
    // One class too deep: the innermost node fails, and its optional field turns null.
    let result = coerce(&ctx, &target, Some(&chain(4))).expect("the outer nodes");
    assert_eq!(chain_length(&result.to_plain()), 3);
    let mut inner = ctx.enter_scope("start");
    for _ in 0..3 {
        inner = inner.enter_class("Node");
    }
    assert_eq!(inner.depth(), 3);
    let error = coerce(&inner, &target, Some(&chain(1))).expect_err("the guard is reached");
    assert_eq!(error.kind, ErrorKind::RecursionLimit);
    assert_eq!(error.target, target);
    assert_eq!(error.scope, vec!["start".to_string()]);
    assert_eq!(error.message(), "start: recursion limit reached");
}

#[test]
fn a_context_without_room_enters_no_class() {
    let schema = linked_list_schema();
    let target = FieldType::Class("Node".to_string());
    let ctx = ParsingContext::with_limit(&schema, 0);
    let error = coerce(&ctx, &target, Some(&chain(1))).expect_err("no class may be entered");
    assert_eq!(error.kind, ErrorKind::RecursionLimit);
    assert!(error.scope.is_empty());
    let number = FieldType::Primitive(TypeValue::Int);
    assert!(coerce(&ctx, &number, Some(&Value::Number(Number::Int(1)))).is_ok());
}
