use jsonish::coercer::coerce;
use jsonish::coercer::coerce_union::coerce_union;
use jsonish::context::ParsingContext;
use jsonish::error::ErrorKind;
use jsonish::field_type::{FieldType, LiteralValue, TypeValue};
use jsonish::flags::Flag;
use jsonish::schema::{ClassDescriptor, EnumDescriptor, EnumValueDescriptor, FieldDescriptor, Name, Schema};
use jsonish::typed::BamlValue;
use jsonish::value::{Number, Value};

fn prim(kind: TypeValue) -> FieldType {
    FieldType::Primitive(kind)
}

fn whole(n: i64) -> Value {
    Value::Number(Number::Int(n))
}

fn words(s: &str) -> Value {
    Value::String(s.to_string())
}

fn object(entries: Vec<(&str, Value)>) -> Value {
    Value::Object(entries.into_iter().map(|(k, v)| (k.to_string(), v)).collect())
}

fn schema() -> Schema {
    let mut schema = Schema::new();
    schema.enums.push(EnumDescriptor {
        name: Name { name: "Color".to_string(), alias: None },
        values: vec![EnumValueDescriptor {
            name: Name { name: "RED".to_string(), alias: None },
            description: None,
            skip: false,
        }],
    });
    schema.classes.push(ClassDescriptor {
        name: Name { name: "C".to_string(), alias: None },
        fields: vec![FieldDescriptor {
            name: Name { name: "a".to_string(), alias: None },
            field_type: prim(TypeValue::Float),
            description: None,
        }],
    });
    schema
}

#[test]
fn the_alternative_with_the_lowest_score_wins() {
    let schema = schema();
    let ctx = ParsingContext::new(&schema);
    let target = FieldType::Union(vec![prim(TypeValue::Int), prim(TypeValue::String)]);
    let result = coerce(&ctx, &target, Some(&words("12"))).expect("two alternatives take it");
    // The integer would need a flag; the string takes the text as it is.
    assert_eq!(result.to_plain(), BamlValue::String("12".to_string()));
    assert_eq!(result.conditions().flags(), &vec![Flag::UnionMatch(1)]);
    assert_eq!(result.score(), 0);
    let result = coerce(&ctx, &target, Some(&whole(12))).expect("the integer takes it");
    assert_eq!(result.to_plain(), BamlValue::Int(12));
    assert_eq!(result.conditions().flags(), &vec![Flag::UnionMatch(0)]);
}

#[test]
fn equal_scores_go_to_the_earlier_alternative() {
    let schema = schema();
    let ctx = ParsingContext::new(&schema);
    let first = FieldType::Union(vec![FieldType::Enum("Color".to_string()), prim(TypeValue::String)]);
    let result = coerce(&ctx, &first, Some(&words("RED"))).expect("both take it");
    assert_eq!(result.to_plain(), BamlValue::Enum("Color".to_string(), "RED".to_string()));
    let second = FieldType::Union(vec![prim(TypeValue::String), FieldType::Enum("Color".to_string())]);
    let result = coerce(&ctx, &second, Some(&words("RED"))).expect("both take it");
    assert_eq!(result.to_plain(), BamlValue::String("RED".to_string()));
    assert_eq!(result.conditions().flags(), &vec![Flag::UnionMatch(0)]);
}

#[test]
fn flags_of_the_chosen_alternative_are_kept() {
    let schema = schema();
    let ctx = ParsingContext::new(&schema);
    let target = FieldType::Union(vec![prim(TypeValue::Bool), prim(TypeValue::Int)]);
    let result = coerce(&ctx, &target, Some(&words("7"))).expect("the integer takes it");
    assert_eq!(result.to_plain(), BamlValue::Int(7));
    assert_eq!(
        result.conditions().flags(),
        &vec![Flag::StringToInt("7".to_string()), Flag::UnionMatch(1)]
    );
    assert_eq!(result.score(), 1);
}

#[test]
fn a_union_fails_with_its_most_specific_failure() {
    let schema = schema();
    let ctx = ParsingContext::new(&schema).enter_scope("u");
    let target = FieldType::Union(vec![
        prim(TypeValue::Int),
        FieldType::Enum("Color".to_string()),
        FieldType::Enum("Missing".to_string()),
        prim(TypeValue::Bool),
    ]);
    let error = coerce(&ctx, &target, Some(&words("BLUE"))).expect_err("nothing takes it");
    // Unexpected type, no match, unknown type, unexpected type: the missing member is the most specific.
    assert_eq!(error.kind, ErrorKind::NoMatch);
    assert_eq!(error.target, FieldType::Enum("Color".to_string()));
    assert_eq!(error.scope, vec!["u".to_string()]);
}

#[test]
fn equally_specific_failures_go_to_the_earlier_alternative() {
    let schema = schema();
    let ctx = ParsingContext::new(&schema);
    let target = FieldType::Union(vec![prim(TypeValue::Int), prim(TypeValue::Bool)]);
    let error = coerce_union(&ctx, &target, &Value::Null).expect_err("nothing takes null");
    assert_eq!(error.kind, ErrorKind::UnexpectedType);
    assert_eq!(error.target, prim(TypeValue::Int));
}

#[test]
fn a_union_without_alternatives_takes_nothing() {
    let schema = schema();
    let ctx = ParsingContext::new(&schema);
    let target = FieldType::Union(vec![]);
    let error = coerce(&ctx, &target, Some(&whole(1))).expect_err("there is no alternative");
    assert_eq!(error.kind, ErrorKind::UnexpectedType);
    assert_eq!(error.target, target);
    let error = coerce_union(&ctx, &prim(TypeValue::Int), &whole(1)).expect_err("the target is no union");
    assert_eq!(error.kind, ErrorKind::UnexpectedType);
}

#[test]
fn an_optional_alternative_never_fails_but_scores() {
    let schema = schema();
    let ctx = ParsingContext::new(&schema);
    let target = FieldType::Union(vec![
        FieldType::Optional(Box::new(prim(TypeValue::Bool))),
        prim(TypeValue::Int),
    ]);
    let result = coerce(&ctx, &target, Some(&words("12"))).expect("both take it");
    // Giving up on the optional scores 2, reading the text as an integer scores 1.
    assert_eq!(result.to_plain(), BamlValue::Int(12));
    let result = coerce(&ctx, &target, Some(&words("x"))).expect("the optional takes anything");
    assert_eq!(result.to_plain(), BamlValue::Null);
}

#[test]
fn nested_unions_flag_each_choice() {
    let schema = schema();
    let ctx = ParsingContext::new(&schema);
    let target = FieldType::Union(vec![
        prim(TypeValue::Bool),
        FieldType::Union(vec![FieldType::Literal(LiteralValue::Int(1)), prim(TypeValue::Int)]),
    ]);
    let result = coerce(&ctx, &target, Some(&whole(2))).expect("the inner integer takes it");
    assert_eq!(result.to_plain(), BamlValue::Int(2));
    assert_eq!(result.conditions().flags(), &vec![Flag::UnionMatch(1), Flag::UnionMatch(1)]);
}

#[test]
fn what_a_union_chose_need_not_be_chosen_again() {
    let schema = schema();
    let ctx = ParsingContext::new(&schema);
    let map = FieldType::MapOf(Box::new(prim(TypeValue::String)), Box::new(prim(TypeValue::Int)));
    let target = FieldType::Union(vec![FieldType::Class("C".to_string()), map]);
    let input = object(vec![("a", words("12"))]);
    let first = coerce(&ctx, &target, Some(&input)).expect("the map takes it");
    // The class cannot read its field from a text (100); the map reads an integer from it (2).
    assert_eq!(
        first.to_plain(),
        BamlValue::MapOf(vec![("a".to_string(), BamlValue::Int(12))])
    );
    assert_eq!(first.score(), 2);
    // Spelled again, the value holds an integer, which the class takes as a decimal.
    let spelled = first.to_plain().to_value();
    assert_eq!(spelled, object(vec![("a", whole(12))]));
    let second = coerce(&ctx, &target, Some(&spelled)).expect("both take it");
    assert_eq!(
        second.to_plain(),
        BamlValue::Class("C".to_string(), vec![("a".to_string(), BamlValue::Float("12".to_string()))])
    );
    assert_eq!(second.score(), 1);
}
