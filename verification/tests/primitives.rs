use jsonish::coercer::primitive::{coerce_literal, coerce_primitive};
use jsonish::coercer::{coerce, coerce_bare};
use jsonish::context::ParsingContext;
use jsonish::error::ErrorKind;
use jsonish::field_type::{
    Constraint, ConstraintLevel, FieldType, LiteralValue, MediaKind, TypeValue,
};
use jsonish::flags::Flag;
use jsonish::schema::Schema;
use jsonish::typed::{BamlValue, BamlValueWithFlags};
use jsonish::value::{Number, Value, ValueShape};

fn prim(kind: TypeValue) -> FieldType {
    FieldType::Primitive(kind)
}

fn whole(n: i64) -> Value {
    Value::Number(Number::Int(n))
}

fn decimal(text: &str) -> Value {
    Value::Number(Number::Float(text.to_string()))
}

fn words(s: &str) -> Value {
    Value::String(s.to_string())
}

fn run(target: &FieldType, value: &Value) -> Result<BamlValueWithFlags, jsonish::error::ParsingError> {
    let schema = Schema::new();
    let ctx = ParsingContext::new(&schema);
    coerce(&ctx, target, Some(value))
}

#[test]
fn string_takes_text_and_nothing_else() {
    let result = run(&prim(TypeValue::String), &words("hello")).expect("a text is a string");
    assert_eq!(result.to_plain(), BamlValue::String("hello".to_string()));
    assert!(result.conditions().flags().is_empty());
    assert_eq!(result.score(), 0);
    for other in [whole(1), decimal("1.5"), Value::Bool(true), Value::Null, Value::Array(vec![])] {
        let error = run(&prim(TypeValue::String), &other).expect_err("only a text is a string");
        assert_eq!(error.kind, ErrorKind::UnexpectedType);
        assert_eq!(error.found, Some(other.shape()));
    }
}

#[test]
fn int_takes_integers() {
    let result = run(&prim(TypeValue::Int), &whole(-17)).expect("an integer");
    assert_eq!(result.to_plain(), BamlValue::Int(-17));
    assert!(result.conditions().flags().is_empty());
    let error = run(&prim(TypeValue::Int), &decimal("1.0")).expect_err("a decimal is no integer");
    assert_eq!(error.kind, ErrorKind::UnexpectedType);
    assert_eq!(error.found, Some(ValueShape::Number));
}

#[test]
fn int_takes_text_that_spells_an_integer_and_flags_it() {
    let cases: Vec<(&str, i64)> = vec![
        ("12", 12),
        (" 42 ", 42),
        ("\t-7\n", -7),
        ("+5", 5),
        ("007", 7),
        ("0", 0),
        ("-0", 0),
        ("9223372036854775807", i64::MAX),
        ("-9223372036854775808", i64::MIN),
    ];
    for (text, expected) in cases {
        let result = run(&prim(TypeValue::Int), &words(text)).expect("the text spells an integer");
        assert_eq!(result.to_plain(), BamlValue::Int(expected), "for {:?}", text);
        assert_eq!(result.conditions().flags(), &vec![Flag::StringToInt(text.to_string())]);
        assert_eq!(result.score(), 1);
    }
}

#[test]
fn int_refuses_text_that_spells_no_integer() {
    let cases = vec![
        "", " ", "-", "+", "12a", "1 2", "1.0", "--1", "+-1", "0x10", "1_000",
        "9223372036854775808", "-9223372036854775809", "99999999999999999999999999",
        "99999999999999999999999999x",
    ];
    for text in cases {
        let error = run(&prim(TypeValue::Int), &words(text)).expect_err("no integer");
        assert_eq!(error.kind, ErrorKind::UnexpectedType, "for {:?}", text);
        assert_eq!(error.found, Some(ValueShape::String));
    }
}

#[test]
fn float_takes_numbers() {
    let result = run(&prim(TypeValue::Float), &decimal("1.50")).expect("a decimal");
    assert_eq!(result.to_plain(), BamlValue::Float("1.50".to_string()));
    assert!(result.conditions().flags().is_empty());
    let result = run(&prim(TypeValue::Float), &whole(3)).expect("an integer is a number");
    assert_eq!(result.to_plain(), BamlValue::Float("3".to_string()));
    assert_eq!(result.conditions().flags(), &vec![Flag::IntToFloat(3)]);
    let result = run(&prim(TypeValue::Float), &whole(-70)).expect("an integer is a number");
    assert_eq!(result.to_plain(), BamlValue::Float("-70".to_string()));
    let result = run(&prim(TypeValue::Float), &whole(i64::MIN)).expect("an integer is a number");
    assert_eq!(result.to_plain(), BamlValue::Float("-9223372036854775808".to_string()));
    let result = run(&prim(TypeValue::Float), &whole(0)).expect("an integer is a number");
    assert_eq!(result.to_plain(), BamlValue::Float("0".to_string()));
    let error = run(&prim(TypeValue::Float), &words("1.5")).expect_err("a text is no number");
    assert_eq!(error.kind, ErrorKind::UnexpectedType);
}

#[test]
fn float_takes_only_what_spells_a_decimal_number() {
    for text in ["0.5", "-2.", ".5", "1e9", "6.02E+23", "+7"] {
        let result = run(&prim(TypeValue::Float), &decimal(text)).expect("a decimal number");
        assert_eq!(result.to_plain(), BamlValue::Float(text.to_string()));
    }
    for text in ["", "NaN", "inf", "1.2.3", "1,5", "0x1p3", "one"] {
        let error = run(&prim(TypeValue::Float), &decimal(text)).expect_err("no decimal number");
        assert_eq!(error.kind, ErrorKind::UnexpectedType, "for {:?}", text);
        assert_eq!(error.found, Some(ValueShape::Number));
    }
}

#[test]
fn bool_and_null_take_their_own() {
    assert_eq!(
        run(&prim(TypeValue::Bool), &Value::Bool(true)).expect("a boolean").to_plain(),
        BamlValue::Bool(true)
    );
    assert_eq!(
        run(&prim(TypeValue::Null), &Value::Null).expect("null").to_plain(),
        BamlValue::Null
    );
    assert_eq!(
        run(&prim(TypeValue::Bool), &words("true")).expect_err("a text is no boolean").kind,
        ErrorKind::UnexpectedType
    );
    let error = run(&prim(TypeValue::Int), &Value::Null).expect_err("null is no integer");
    assert_eq!(error.kind, ErrorKind::UnexpectedType);
    assert_eq!(error.found, Some(ValueShape::Null));
    assert_eq!(
        run(&prim(TypeValue::Null), &whole(0)).expect_err("zero is not null").kind,
        ErrorKind::UnexpectedType
    );
}

#[test]
fn nothing_is_coerced_into_media() {
    for kind in [MediaKind::Image, MediaKind::Audio] {
        for value in [words("a.png"), Value::Null, Value::Object(vec![])] {
            let error = run(&prim(TypeValue::Media(kind)), &value).expect_err("no media from values");
            assert_eq!(error.kind, ErrorKind::UnexpectedType);
        }
    }
}

#[test]
fn coerce_primitive_reports_the_target_it_was_given() {
    let schema = Schema::new();
    let ctx = ParsingContext::new(&schema).enter_scope("here");
    let target = FieldType::Literal(LiteralValue::Int(3));
    let error = coerce_primitive(&ctx, &target, TypeValue::Int, &Value::Bool(false))
        .expect_err("a boolean is no integer");
    assert_eq!(error.target, target);
    assert_eq!(error.scope, vec!["here".to_string()]);
}

#[test]
fn string_literal_must_be_the_text() {
    let yes = FieldType::Literal(LiteralValue::String("yes".to_string()));
    for text in ["yes", " yes", "yes\n", "\"yes\"", "  \"yes\"\t"] {
        let result = run(&yes, &words(text)).expect("the text is the literal");
        assert_eq!(result.to_plain(), BamlValue::String("yes".to_string()), "for {:?}", text);
        assert!(result.conditions().flags().is_empty());
    }
    for text in ["Yes", "yes!", "\"yes", "\"\"yes\"\"", "\" yes \"", "'yes'", ""] {
        let error = run(&yes, &words(text)).expect_err("the text is not the literal");
        assert_eq!(error.kind, ErrorKind::UnexpectedType, "for {:?}", text);
        assert_eq!(error.target, yes);
    }
    assert_eq!(run(&yes, &whole(1)).expect_err("no text").kind, ErrorKind::UnexpectedType);
}

#[test]
fn string_literal_with_blanks_matches_itself() {
    let padded = FieldType::Literal(LiteralValue::String(" \"a\" ".to_string()));
    let result = run(&padded, &words(" \"a\" ")).expect("the text is the literal");
    assert_eq!(result.to_plain(), BamlValue::String(" \"a\" ".to_string()));
    assert!(run(&padded, &words("a")).is_err());
}

#[test]
fn int_literal_must_be_the_integer() {
    let seven = FieldType::Literal(LiteralValue::Int(7));
    assert_eq!(run(&seven, &whole(7)).expect("seven").to_plain(), BamlValue::Int(7));
    let spelled = run(&seven, &words(" 7 ")).expect("seven as text");
    assert_eq!(spelled.to_plain(), BamlValue::Int(7));
    assert_eq!(spelled.conditions().flags(), &vec![Flag::StringToInt(" 7 ".to_string())]);
    for other in [whole(8), words("8"), words("seven"), decimal("7.0"), Value::Bool(true)] {
        let error = run(&seven, &other).expect_err("not seven");
        assert_eq!(error.kind, ErrorKind::UnexpectedType);
        assert_eq!(error.target, seven);
        assert_eq!(error.found, Some(other.shape()));
    }
}

#[test]
fn bool_literal_must_be_the_boolean() {
    let schema = Schema::new();
    let ctx = ParsingContext::new(&schema);
    let target = FieldType::Literal(LiteralValue::Bool(true));
    let literal = LiteralValue::Bool(true);
    assert_eq!(
        coerce_literal(&ctx, &target, &literal, &Value::Bool(true)).expect("true").to_plain(),
        BamlValue::Bool(true)
    );
    assert!(coerce_literal(&ctx, &target, &literal, &Value::Bool(false)).is_err());
    assert!(coerce_literal(&ctx, &target, &literal, &words("true")).is_err());
}

#[test]
fn absent_value_fails_unless_the_type_is_optional() {
    let schema = Schema::new();
    let ctx = ParsingContext::new(&schema).enter_scope("field");
    for target in [
        prim(TypeValue::String),
        prim(TypeValue::Null),
        FieldType::List(Box::new(prim(TypeValue::Int))),
        FieldType::Union(vec![FieldType::Optional(Box::new(prim(TypeValue::Int)))]),
        FieldType::Tuple(vec![]),
        FieldType::Class("Missing".to_string()),
        FieldType::Enum("Missing".to_string()),
        FieldType::Literal(LiteralValue::Int(1)),
    ] {
        let error = coerce(&ctx, &target, None).expect_err("nothing is there");
        assert_eq!(error.kind, ErrorKind::UnexpectedNull);
        assert_eq!(error.target, target);
        assert_eq!(error.found, None);
        assert_eq!(error.scope, vec!["field".to_string()]);
    }
    let optional = FieldType::Optional(Box::new(prim(TypeValue::Int)));
    let result = coerce(&ctx, &optional, None).expect("absence is fine for an optional");
    assert_eq!(result.to_plain(), BamlValue::Null);
    assert_eq!(result.conditions().flags(), &vec![Flag::OptionalDefaultFromNoValue]);
}

#[test]
fn optional_takes_null_the_inner_value_or_gives_up_with_a_flag() {
    let optional = FieldType::Optional(Box::new(prim(TypeValue::Int)));
    let from_null = run(&optional, &Value::Null).expect("null is fine");
    assert_eq!(from_null.to_plain(), BamlValue::Null);
    assert_eq!(from_null.conditions().flags(), &vec![Flag::OptionalDefaultFromNoValue]);
    let inner = run(&optional, &whole(4)).expect("the inner type takes it");
    assert_eq!(inner.to_plain(), BamlValue::Int(4));
    assert!(inner.conditions().flags().is_empty());
    let given_up = run(&optional, &words("four")).expect("an optional never fails");
    assert_eq!(given_up.to_plain(), BamlValue::Null);
    match &given_up.conditions().flags()[..] {
        [Flag::DefaultButHadUnparseableValue(error)] => {
            assert_eq!(error.kind, ErrorKind::UnexpectedType);
            assert_eq!(error.target, prim(TypeValue::Int));
        }
        other => panic!("one flag was expected, not {:?}", other),
    }
    assert_eq!(given_up.score(), 2);
}

#[test]
fn constraints_are_looked_through() {
    let check = Constraint {
        level: ConstraintLevel::Check,
        expression: "this > 0".to_string(),
        label: Some("positive".to_string()),
    };
    let constrained = FieldType::Constrained {
        base: Box::new(FieldType::Constrained {
            base: Box::new(FieldType::Optional(Box::new(prim(TypeValue::Int)))),
            constraints: vec![],
        }),
        constraints: vec![check],
    };
    assert_eq!(run(&constrained, &whole(-1)).expect("the base takes it").to_plain(), BamlValue::Int(-1));
    let schema = Schema::new();
    let ctx = ParsingContext::new(&schema);
    assert_eq!(
        coerce(&ctx, &constrained, None).expect("the base is optional").to_plain(),
        BamlValue::Null
    );
}

#[test]
fn value_from_a_fenced_block_is_coerced_and_flagged() {
    let fenced = Value::Markdown("json".to_string(), Box::new(whole(5)));
    let result = run(&prim(TypeValue::Int), &fenced).expect("the value inside is an integer");
    assert_eq!(result.to_plain(), BamlValue::Int(5));
    assert_eq!(result.conditions().flags(), &vec![Flag::ObjectFromMarkdown]);
    assert_eq!(result.score(), 0);
    let twice = Value::Markdown(
        "a".to_string(),
        Box::new(Value::Markdown("b".to_string(), Box::new(words("9")))),
    );
    let result = run(&prim(TypeValue::Int), &twice).expect("the value inside spells an integer");
    assert_eq!(
        result.conditions().flags(),
        &vec![Flag::StringToInt("9".to_string()), Flag::ObjectFromMarkdown]
    );
    let error = run(&prim(TypeValue::Bool), &twice).expect_err("the value inside is a text");
    assert_eq!(error.found, Some(ValueShape::String));
}

#[test]
fn coerce_bare_does_not_look_into_fenced_blocks() {
    let schema = Schema::new();
    let ctx = ParsingContext::new(&schema);
    let fenced = Value::Markdown("json".to_string(), Box::new(whole(5)));
    let error = coerce_bare(&ctx, &prim(TypeValue::Int), Some(&fenced)).expect_err("a block is no integer");
    assert_eq!(error.kind, ErrorKind::UnexpectedType);
    assert_eq!(error.found, Some(ValueShape::Number));
    assert_eq!(fenced.bare(), &whole(5));
}
