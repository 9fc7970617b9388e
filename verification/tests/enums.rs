use jsonish::coercer::coerce;
use jsonish::coercer::enums::{coerce_enum, find_member};
use jsonish::context::ParsingContext;
use jsonish::error::ErrorKind;
use jsonish::field_type::FieldType;
use jsonish::schema::{EnumDescriptor, EnumValueDescriptor, Name, Schema};
use jsonish::typed::BamlValue;
use jsonish::value::{Number, Value, ValueShape};

fn member(name: &str, alias: Option<&str>, skip: bool) -> EnumValueDescriptor {
    EnumValueDescriptor {
        name: Name { name: name.to_string(), alias: alias.map(|a| a.to_string()) },
        description: None,
        skip,
    }
}

fn colors() -> EnumDescriptor {
    EnumDescriptor {
        name: Name { name: "Color".to_string(), alias: Some("Colour".to_string()) },
        values: vec![
            member("RED", Some("rouge"), false),
            member("GREEN", Some("RED"), false),
            member("BLUE", None, true),
            member("rouge", None, false),
            member("GREY", Some("BLUE"), false),
        ],
    }
}

fn schema() -> Schema {
    let mut schema = Schema::new();
    schema.enums.push(colors());
    schema.enums.push(EnumDescriptor {
        name: Name { name: "Color".to_string(), alias: None },
        values: vec![member("SHADOWED", None, false)],
    });
    schema
}

fn words(s: &str) -> Value {
    Value::String(s.to_string())
}

#[test]
fn member_is_found_by_name_then_by_alias() {
    let e = colors();
    assert_eq!(find_member(&e, "RED").map(|s| s.as_str()), Some("RED"));
    assert_eq!(find_member(&e, "GREEN").map(|s| s.as_str()), Some("GREEN"));
    // A name wins over an alias, even one that is declared earlier.
    assert_eq!(find_member(&e, "rouge").map(|s| s.as_str()), Some("rouge"));
    assert_eq!(find_member(&e, "red"), None);
    assert_eq!(find_member(&e, "RED "), None);
    assert_eq!(find_member(&e, ""), None);
}

#[test]
fn skipped_member_is_never_matched() {
    let e = colors();
    // BLUE is skipped, so the text falls through to the alias of GREY.
    assert_eq!(find_member(&e, "BLUE").map(|s| s.as_str()), Some("GREY"));
    let only = EnumDescriptor {
        name: Name { name: "E".to_string(), alias: None },
        values: vec![member("A", Some("a"), true)],
    };
    assert_eq!(find_member(&only, "A"), None);
    assert_eq!(find_member(&only, "a"), None);
}

#[test]
fn enum_value_names_the_enum_and_the_member() {
    let schema = schema();
    let ctx = ParsingContext::new(&schema);
    let target = FieldType::Enum("Color".to_string());
    let result = coerce(&ctx, &target, Some(&words("GREEN"))).expect("a member");
    assert_eq!(result.to_plain(), BamlValue::Enum("Color".to_string(), "GREEN".to_string()));
    assert!(result.conditions().flags().is_empty());
    // The first enum of the name is the one that counts.
    assert!(coerce(&ctx, &target, Some(&words("SHADOWED"))).is_err());
}

#[test]
fn text_that_names_no_member_is_no_match() {
    let schema = schema();
    let ctx = ParsingContext::new(&schema).enter_scope("color");
    let target = FieldType::Enum("Color".to_string());
    let error = coerce_enum(&ctx, &target, "Color", &words("PINK")).expect_err("no such member");
    assert_eq!(error.kind, ErrorKind::NoMatch);
    assert_eq!(error.target, target);
    assert_eq!(error.found, Some(ValueShape::String));
    assert_eq!(error.message(), "color: no matching enum member");
}

#[test]
fn enum_takes_only_text() {
    let schema = schema();
    let ctx = ParsingContext::new(&schema);
    let target = FieldType::Enum("Color".to_string());
    for value in [Value::Number(Number::Int(0)), Value::Null, Value::Array(vec![words("RED")])] {
        let error = coerce(&ctx, &target, Some(&value)).expect_err("no text");
        assert_eq!(error.kind, ErrorKind::UnexpectedType);
    }
}

#[test]
fn enum_must_be_in_the_schema() {
    let schema = schema();
    let ctx = ParsingContext::new(&schema);
    let target = FieldType::Enum("Shape".to_string());
    let error = coerce(&ctx, &target, Some(&words("RED"))).expect_err("no such enum");
    assert_eq!(error.kind, ErrorKind::UnknownType);
    assert_eq!(error.message(), "<root>: unknown class or enum");
    assert!(schema.find_enum("Shape").is_none());
    assert_eq!(schema.find_enum("Color").map(|e| e.values.len()), Some(5));
    assert!(schema.find_class("Color").is_none());
}
