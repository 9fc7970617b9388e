use jsonish::context::ParsingContext;
use jsonish::error::{render_scope, ErrorKind, ParsingError};
use jsonish::field_type::{FieldType, TypeValue};
use jsonish::schema::Schema;
use jsonish::value::{Number, Value, ValueShape};

#[test]
fn the_root_context_is_empty() {
    let schema = Schema::new();
    let ctx = ParsingContext::new(&schema);
    assert!(ctx.scope.is_empty());
    assert!(ctx.visited.is_empty());
    assert_eq!(ctx.depth(), 0);
    assert_eq!(ctx.display_scope(), "<root>");
    assert_eq!(ctx.limit, usize::MAX);
}

#[test]
fn a_context_keeps_the_limit_it_was_made_with() {
    let schema = Schema::new();
    let ctx = ParsingContext::with_limit(&schema, 3);
    assert!(ctx.scope.is_empty());
    assert!(ctx.visited.is_empty());
    assert_eq!(ctx.limit, 3);
    let inside = ctx.enter_scope("a").enter_class("A").enter_scope("b").enter_class("B");
    assert_eq!(inside.limit, 3);
    assert_eq!(inside.depth(), 2);
    assert_eq!(ParsingContext::with_limit(&schema, 0).limit, 0);
}

#[test]
fn entering_a_scope_leaves_the_context_as_it_was() {
    let schema = Schema::new();
    let root = ParsingContext::new(&schema);
    let a = root.enter_scope("a");
    let ab = a.enter_scope("b");
    let ac = a.enter_scope("c");
    assert_eq!(root.display_scope(), "<root>");
    assert_eq!(a.display_scope(), "a");
    assert_eq!(ab.display_scope(), "a.b");
    assert_eq!(ac.display_scope(), "a.c");
    assert_eq!(ab.scope, vec!["a".to_string(), "b".to_string()]);
    assert_eq!(ab.depth(), 0);
    assert_eq!(root.enter_scope("").display_scope(), "");
    assert_eq!(a.enter_scope("").enter_scope("x").display_scope(), "a..x");
}

#[test]
fn entering_a_class_deepens_the_context() {
    let schema = Schema::new();
    let root = ParsingContext::new(&schema).enter_scope("s");
    let inside = root.enter_class("Outer").enter_class("Inner");
    assert_eq!(root.depth(), 0);
    assert_eq!(inside.depth(), 2);
    assert_eq!(inside.visited, vec!["Outer".to_string(), "Inner".to_string()]);
    assert_eq!(inside.display_scope(), "s");
    assert_eq!(inside.enter_scope("f").depth(), 2);
}

#[test]
fn failures_carry_scope_target_and_shape() {
    let schema = Schema::new();
    let ctx = ParsingContext::new(&schema).enter_scope("person").enter_scope("age");
    let target = FieldType::Primitive(TypeValue::Int);
    let scope = vec!["person".to_string(), "age".to_string()];
    assert_eq!(
        ctx.error_unexpected_null(&target),
        ParsingError {
            scope: scope.clone(),
            kind: ErrorKind::UnexpectedNull,
            target: FieldType::Primitive(TypeValue::Int),
            found: None,
        }
    );
    let value = Value::Markdown("md".to_string(), Box::new(Value::Array(vec![])));
    assert_eq!(
        ctx.error_unexpected_type(&target, &value),
        ParsingError {
            scope: scope.clone(),
            kind: ErrorKind::UnexpectedType,
            target: FieldType::Primitive(TypeValue::Int),
            found: Some(ValueShape::Array),
        }
    );
    let key = FieldType::Primitive(TypeValue::Bool);
    let unsupported = ctx.error_map_must_have_supported_key(&key);
    assert_eq!(unsupported.kind, ErrorKind::UnsupportedMapKey);
    assert_eq!(unsupported.target, key);
    assert_eq!(unsupported.scope, scope);
    let mixed = ctx.error_map_must_have_only_one_type_in_key_union(&key);
    assert_eq!(mixed.kind, ErrorKind::MixedKeyUnion);
    assert_eq!(mixed.found, None);
    let other = ctx.error(ErrorKind::NoMatch, &target, Some(ValueShape::String));
    assert_eq!(other.kind, ErrorKind::NoMatch);
    assert_eq!(other.found, Some(ValueShape::String));
}

#[test]
fn messages_name_the_scope_and_the_kind() {
    let schema = Schema::new();
    let ctx = ParsingContext::new(&schema);
    let target = FieldType::Primitive(TypeValue::Int);
    let kinds = vec![
        (ErrorKind::UnexpectedNull, "<root>: unexpected null"),
        (ErrorKind::UnexpectedType, "<root>: unexpected type"),
        (ErrorKind::UnsupportedMapKey, "<root>: unsupported map key type"),
        (ErrorKind::MixedKeyUnion, "<root>: mixed literal kinds in map key union"),
        (ErrorKind::MissingRequiredField, "<root>: missing required field"),
        (ErrorKind::NoMatch, "<root>: no matching enum member"),
        (ErrorKind::UnknownType, "<root>: unknown class or enum"),
        (ErrorKind::RecursionLimit, "<root>: recursion limit reached"),
    ];
    for (kind, message) in kinds {
        assert_eq!(ctx.error(kind, &target, None).message(), message);
        assert_eq!(format!("<root>: {}", kind.describe()), message);
    }
    assert_eq!(render_scope(&vec!["a".to_string(), "0".to_string(), "b".to_string()]), "a.0.b");
}

#[test]
fn kinds_are_ranked_by_how_specific_they_are() {
    let ranked = vec![
        ErrorKind::UnexpectedNull,
        ErrorKind::UnexpectedType,
        ErrorKind::UnknownType,
        ErrorKind::NoMatch,
        ErrorKind::MissingRequiredField,
        ErrorKind::UnsupportedMapKey,
        ErrorKind::MixedKeyUnion,
        ErrorKind::RecursionLimit,
    ];
    for (rank, kind) in ranked.iter().enumerate() {
        assert_eq!(kind.specificity() as usize, rank);
    }
}

#[test]
fn shapes_look_through_fenced_blocks() {
    let cases = vec![
        (Value::Null, ValueShape::Null),
        (Value::Bool(true), ValueShape::Bool),
        (Value::Number(Number::Int(1)), ValueShape::Number),
        (Value::Number(Number::Float("1.5".to_string())), ValueShape::Number),
        (Value::String(String::new()), ValueShape::String),
        (Value::Array(vec![]), ValueShape::Array),
        (Value::Object(vec![]), ValueShape::Object),
    ];
    for (value, shape) in cases {
        assert_eq!(value.shape(), shape);
        let fenced = Value::Markdown("x".to_string(), Box::new(value.clone()));
        assert_eq!(fenced.shape(), shape);
        assert_eq!(fenced.bare(), &value);
        assert_eq!(value.bare(), &value);
    }
}
