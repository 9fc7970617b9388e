use jsonish::coercer::coerce;
use jsonish::coercer::coerce_list::{coerce_list, coerce_tuple};
use jsonish::context::ParsingContext;
use jsonish::error::ErrorKind;
use jsonish::field_type::{FieldType, TypeValue};
use jsonish::flags::Flag;
use jsonish::schema::Schema;
use jsonish::typed::{BamlValue, BamlValueWithFlags};
use jsonish::value::{Number, Value, ValueShape};

fn ints() -> FieldType {
    FieldType::List(Box::new(FieldType::Primitive(TypeValue::Int)))
}

fn whole(n: i64) -> Value {
    Value::Number(Number::Int(n))
}

fn words(s: &str) -> Value {
    Value::String(s.to_string())
}

#[test]
fn list_coerces_each_item() {
    let schema = Schema::new();
    let ctx = ParsingContext::new(&schema);
    let input = Value::Array(vec![whole(123), whole(456)]);
    let result = coerce(&ctx, &ints(), Some(&input)).expect("a list comes out");
    assert_eq!(result.to_plain(), BamlValue::List(vec![BamlValue::Int(123), BamlValue::Int(456)]));
    assert!(result.conditions().flags().is_empty());
    assert_eq!(result.score(), 0);
}

#[test]
fn empty_array_is_an_empty_list() {
    let schema = Schema::new();
    let ctx = ParsingContext::new(&schema);
    let result = coerce(&ctx, &ints(), Some(&Value::Array(vec![]))).expect("a list comes out");
    assert_eq!(result.to_plain(), BamlValue::List(vec![]));
}

#[test]
fn list_drops_items_that_fail_and_flags_them() {
    let schema = Schema::new();
    let ctx = ParsingContext::new(&schema).enter_scope("xs");
    let input = Value::Array(vec![whole(1), words("two"), whole(3), Value::Null, words("5")]);
    let result = coerce_list(&ctx, &ints(), &input).expect("a list comes out");
    assert_eq!(
        result.to_plain(),
        BamlValue::List(vec![BamlValue::Int(1), BamlValue::Int(3), BamlValue::Int(5)])
    );
    let flags = result.conditions().flags();
    assert_eq!(flags.len(), 2);
    match (&flags[0], &flags[1]) {
        (Flag::ArrayItemParseError(1, first), Flag::ArrayItemParseError(3, second)) => {
            assert_eq!(first.scope, vec!["xs".to_string(), "1".to_string()]);
            assert_eq!(second.scope, vec!["xs".to_string(), "3".to_string()]);
            assert_eq!(second.found, Some(ValueShape::Null));
        }
        other => panic!("two item flags were expected, not {:?}", other),
    }
    // (1 + 1) for the item at 1, (1 + 3) for the item at 3, 1 for the text read as an integer.
    assert_eq!(result.score(), 7);
}

#[test]
fn list_of_failures_is_an_empty_list() {
    let schema = Schema::new();
    let ctx = ParsingContext::new(&schema);
    let input = Value::Array(vec![words("a"), words("b")]);
    let result = coerce(&ctx, &ints(), Some(&input)).expect("a list comes out");
    assert_eq!(result.to_plain(), BamlValue::List(vec![]));
    assert_eq!(result.conditions().flags().len(), 2);
}

#[test]
fn item_scopes_count_in_base_ten() {
    let schema = Schema::new();
    let ctx = ParsingContext::new(&schema);
    let mut items: Vec<Value> = (0..12).map(whole).collect();
    items[11] = words("x");
    let result = coerce(&ctx, &ints(), Some(&Value::Array(items))).expect("a list comes out");
    match &result.conditions().flags()[..] {
        [Flag::ArrayItemParseError(11, error)] => assert_eq!(error.scope, vec!["11".to_string()]),
        other => panic!("one item flag was expected, not {:?}", other),
    }
}

#[test]
fn a_value_that_is_no_array_is_no_list() {
    let schema = Schema::new();
    let ctx = ParsingContext::new(&schema);
    for value in [whole(123), words("[1]"), Value::Null, Value::Object(vec![])] {
        let error = coerce(&ctx, &ints(), Some(&value)).expect_err("no array");
        assert_eq!(error.kind, ErrorKind::UnexpectedType);
        assert_eq!(error.target, ints());
    }
    let error = coerce_list(&ctx, &FieldType::Primitive(TypeValue::Int), &Value::Array(vec![]))
        .expect_err("the target is no list");
    assert_eq!(error.kind, ErrorKind::UnexpectedType);
}

#[test]
fn nested_lists_keep_their_own_flags() {
    let schema = Schema::new();
    let ctx = ParsingContext::new(&schema);
    let target = FieldType::List(Box::new(ints()));
    let input = Value::Array(vec![
        Value::Array(vec![whole(1), words("x")]),
        whole(2),
        Value::Array(vec![]),
    ]);
    let result = coerce(&ctx, &target, Some(&input)).expect("a list comes out");
    assert_eq!(
        result.to_plain(),
        BamlValue::List(vec![BamlValue::List(vec![BamlValue::Int(1)]), BamlValue::List(vec![])])
    );
    let BamlValueWithFlags::List(outer, items) = &result else {
        panic!("a list comes out");
    };
    assert!(matches!(&outer.flags()[..], [Flag::ArrayItemParseError(1, _)]));
    match &items[0].conditions().flags()[..] {
        [Flag::ArrayItemParseError(1, error)] => {
            assert_eq!(error.scope, vec!["0".to_string(), "1".to_string()])
        }
        other => panic!("one item flag was expected, not {:?}", other),
    }
    assert_eq!(result.score(), 4);
}

#[test]
fn tuple_takes_one_item_for_each_position() {
    let schema = Schema::new();
    let ctx = ParsingContext::new(&schema);
    let target = FieldType::Tuple(vec![
        FieldType::Primitive(TypeValue::Int),
        FieldType::Primitive(TypeValue::String),
        FieldType::Optional(Box::new(FieldType::Primitive(TypeValue::Bool))),
    ]);
    let input = Value::Array(vec![words("1"), words("one"), whole(1)]);
    let result = coerce(&ctx, &target, Some(&input)).expect("each item fits its position");
    assert_eq!(
        result.to_plain(),
        BamlValue::List(vec![
            BamlValue::Int(1),
            BamlValue::String("one".to_string()),
            BamlValue::Null,
        ])
    );
    assert!(result.conditions().flags().is_empty());
    assert_eq!(result.score(), 3);
}

#[test]
fn tuple_fails_with_the_first_item_that_fails() {
    let schema = Schema::new();
    let ctx = ParsingContext::new(&schema).enter_scope("t");
    let target = FieldType::Tuple(vec![
        FieldType::Primitive(TypeValue::Int),
        FieldType::Primitive(TypeValue::Bool),
        FieldType::Primitive(TypeValue::Null),
    ]);
    let input = Value::Array(vec![whole(1), words("no"), words("no")]);
    let error = coerce_tuple(&ctx, &target, &input).expect_err("the second item fails");
    assert_eq!(error.kind, ErrorKind::UnexpectedType);
    assert_eq!(error.scope, vec!["t".to_string(), "1".to_string()]);
    assert_eq!(error.target, FieldType::Primitive(TypeValue::Bool));
}

#[test]
fn tuple_needs_the_right_number_of_items() {
    let schema = Schema::new();
    let ctx = ParsingContext::new(&schema);
    let target = FieldType::Tuple(vec![FieldType::Primitive(TypeValue::Int)]);
    for input in [
        Value::Array(vec![]),
        Value::Array(vec![whole(1), whole(2)]),
        whole(1),
        Value::Object(vec![]),
    ] {
        let error = coerce(&ctx, &target, Some(&input)).expect_err("the shape is wrong");
        assert_eq!(error.kind, ErrorKind::UnexpectedType);
        assert_eq!(error.target, target);
        assert_eq!(error.scope, Vec::<String>::new());
    }
    let empty = FieldType::Tuple(vec![]);
    assert_eq!(
        coerce(&ctx, &empty, Some(&Value::Array(vec![]))).expect("nothing to fit").to_plain(),
        BamlValue::List(vec![])
    );
}
