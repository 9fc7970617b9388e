use jsonish::coercer::coerce;
use jsonish::context::ParsingContext;
use jsonish::field_type::{FieldType, LiteralValue, TypeValue};
use jsonish::schema::{
    ClassDescriptor, EnumDescriptor, EnumValueDescriptor, FieldDescriptor, Name, Schema,
};
use jsonish::typed::BamlValue;
use jsonish::value::{Number, Value};

fn prim(kind: TypeValue) -> FieldType {
    FieldType::Primitive(kind)
}

fn whole(n: i64) -> Value {
    Value::Number(Number::Int(n))
}

fn words(s: &str) -> Value {
    Value::String(s.to_string())
}

fn object(entries: Vec<(&str, Value)>) -> Value {
    Value::Object(entries.into_iter().map(|(k, v)| (k.to_string(), v)).collect())
}

fn field(name: &str, alias: Option<&str>, field_type: FieldType) -> FieldDescriptor {
    FieldDescriptor {
        name: Name { name: name.to_string(), alias: alias.map(|a| a.to_string()) },
        field_type,
        description: None,
    }
}

fn schema() -> Schema {
    let mut schema = Schema::new();
    schema.enums.push(EnumDescriptor {
        name: Name { name: "Color".to_string(), alias: None },
        values: vec![
            EnumValueDescriptor {
                name: Name { name: "RED".to_string(), alias: Some("rouge".to_string()) },
                description: None,
                skip: false,
            },
            EnumValueDescriptor {
                name: Name { name: "GREEN".to_string(), alias: None },
                description: None,
                skip: false,
            },
        ],
    });
    schema.classes.push(ClassDescriptor {
        name: Name { name: "Item".to_string(), alias: None },
        fields: vec![
            field("id", Some("identifier"), prim(TypeValue::Int)),
            field("color", None, FieldType::Optional(Box::new(FieldType::Enum("Color".to_string())))),
            field("price", None, prim(TypeValue::Float)),
            field(
                "tags",
                None,
                FieldType::List(Box::new(FieldType::Literal(LiteralValue::String("new".to_string())))),
            ),
            field(
                "stock",
                None,
                FieldType::MapOf(Box::new(prim(TypeValue::Int)), Box::new(prim(TypeValue::Int))),
            ),
            field("parent", None, FieldType::Optional(Box::new(FieldType::Class("Item".to_string())))),
            field("pair", None, FieldType::Tuple(vec![prim(TypeValue::Bool), prim(TypeValue::Null)])),
        ],
    });
    schema
}

/// Coerces `input`, spells the plain result as a value again, coerces that,
/// and hands back both plain results.
fn twice(schema: &Schema, target: &FieldType, input: &Value) -> (BamlValue, BamlValue) {
    let ctx = ParsingContext::new(schema);
    let first = coerce(&ctx, target, Some(input)).expect("the first coercion succeeds");
    let plain = first.to_plain();
    let elsewhere = ctx.enter_scope("again");
    let second = coerce(&elsewhere, target, Some(&plain.to_value()))
        .expect("what was produced is taken again");
    (plain, second.to_plain())
}

#[test]
fn a_lenient_class_reads_back() {
    let schema = schema();
    let target = FieldType::Class("Item".to_string());
    let input = object(vec![
        ("extra", words("ignored")),
        ("stock", object(vec![("1", words("10")), ("x", whole(1)), ("2", words("y")), ("1", whole(11))])),
        ("identifier", words(" 42 ")),
        ("color", words("rouge")),
        ("tags", Value::Array(vec![words(" \"new\" "), words("old"), words("new")])),
        ("price", whole(3)),
        (
            "parent",
            Value::Markdown(
                "json".to_string(),
                Box::new(object(vec![("id", whole(1)), ("color", words("PINK"))])),
            ),
        ),
        ("pair", Value::Array(vec![Value::Bool(true), Value::Null])),
    ]);
    let (first, second) = twice(&schema, &target, &input);
    assert_eq!(first, second);
    let parent = BamlValue::Class(
        "Item".to_string(),
        vec![
            ("id".to_string(), BamlValue::Int(1)),
            ("color".to_string(), BamlValue::Null),
            ("parent".to_string(), BamlValue::Null),
        ],
    );
    assert_eq!(
        first,
        BamlValue::Class(
            "Item".to_string(),
            vec![
                ("id".to_string(), BamlValue::Int(42)),
                ("color".to_string(), BamlValue::Enum("Color".to_string(), "RED".to_string())),
                ("price".to_string(), BamlValue::Float("3".to_string())),
                (
                    "tags".to_string(),
                    BamlValue::List(vec![
                        BamlValue::String("new".to_string()),
                        BamlValue::String("new".to_string()),
                    ])
                ),
                (
                    "stock".to_string(),
                    BamlValue::MapOf(vec![("1".to_string(), BamlValue::Int(11))])
                ),
                ("parent".to_string(), parent),
                (
                    "pair".to_string(),
                    BamlValue::List(vec![BamlValue::Bool(true), BamlValue::Null])
                ),
            ]
        )
    );
}

#[test]
fn values_without_leniency_read_back() {
    let schema = schema();
    let cases: Vec<(FieldType, Value)> = vec![
        (prim(TypeValue::String), words("text")),
        (prim(TypeValue::Int), whole(i64::MIN)),
        (prim(TypeValue::Float), Value::Number(Number::Float("1e-3".to_string()))),
        (prim(TypeValue::Bool), Value::Bool(false)),
        (prim(TypeValue::Null), Value::Null),
        (FieldType::Enum("Color".to_string()), words("GREEN")),
        (FieldType::Literal(LiteralValue::Int(5)), words("5")),
        (FieldType::Literal(LiteralValue::Bool(true)), Value::Bool(true)),
        (FieldType::Optional(Box::new(prim(TypeValue::Int))), words("not a number")),
        (FieldType::List(Box::new(prim(TypeValue::Int))), Value::Array(vec![])),
        (FieldType::Class("Item".to_string()), object(vec![])),
    ];
    for (target, input) in cases {
        let (first, second) = twice(&schema, &target, &input);
        assert_eq!(first, second, "for {:?}", target);
    }
}

#[test]
fn spelling_a_plain_value() {
    let plain = BamlValue::Class(
        "Item".to_string(),
        vec![
            ("id".to_string(), BamlValue::Int(1)),
            ("color".to_string(), BamlValue::Enum("Color".to_string(), "RED".to_string())),
            ("price".to_string(), BamlValue::Float("2.5".to_string())),
            ("tags".to_string(), BamlValue::List(vec![BamlValue::String("a".to_string()), BamlValue::Null])),
            ("stock".to_string(), BamlValue::MapOf(vec![("k".to_string(), BamlValue::Bool(true))])),
        ],
    );
    assert_eq!(
        plain.to_value(),
        object(vec![
            ("id", whole(1)),
            ("color", words("RED")),
            ("price", Value::Number(Number::Float("2.5".to_string()))),
            ("tags", Value::Array(vec![words("a"), Value::Null])),
            ("stock", object(vec![("k", Value::Bool(true))])),
        ])
    );
}

#[test]
fn a_map_with_a_union_of_literals_as_key_type_reads_back() {
    let schema = schema();
    let key = FieldType::Union(vec![
        FieldType::Literal(LiteralValue::String("a".to_string())),
        FieldType::Union(vec![FieldType::Literal(LiteralValue::String("b".to_string()))]),
    ]);
    let target = FieldType::MapOf(Box::new(key), Box::new(prim(TypeValue::Int)));
    let input = object(vec![("a", words("1")), ("c", whole(2)), ("b", whole(3)), ("a", words(" 4 "))]);
    let (first, second) = twice(&schema, &target, &input);
    assert_eq!(
        first,
        BamlValue::MapOf(vec![
            ("a".to_string(), BamlValue::Int(4)),
            ("b".to_string(), BamlValue::Int(3)),
        ])
    );
    assert_eq!(first, second);
}

#[test]
fn a_union_of_alternatives_for_different_shapes_reads_back() {
    let schema = schema();
    let target = FieldType::Union(vec![
        prim(TypeValue::Bool),
        FieldType::List(Box::new(FieldType::Union(vec![
            prim(TypeValue::Int),
            FieldType::Class("Item".to_string()),
            prim(TypeValue::Null),
        ]))),
        prim(TypeValue::Int),
    ]);
    let inputs = vec![
        Value::Bool(true),
        words(" 12 "),
        whole(7),
        Value::Array(vec![
            words("3"),
            Value::Null,
            object(vec![("id", words("9")), ("price", whole(1))]),
            Value::Bool(false),
            whole(4),
        ]),
    ];
    let expected = vec![
        BamlValue::Bool(true),
        BamlValue::Int(12),
        BamlValue::Int(7),
        BamlValue::List(vec![
            BamlValue::Int(3),
            BamlValue::Null,
            BamlValue::Class(
                "Item".to_string(),
                vec![
                    ("id".to_string(), BamlValue::Int(9)),
                    ("color".to_string(), BamlValue::Null),
                    ("price".to_string(), BamlValue::Float("1".to_string())),
                    ("parent".to_string(), BamlValue::Null),
                ],
            ),
            BamlValue::Int(4),
        ]),
    ];
    for (input, plain) in inputs.iter().zip(expected) {
        let (first, second) = twice(&schema, &target, input);
        assert_eq!(first, plain);
        assert_eq!(first, second);
    }
}

fn one_class(fields: Vec<FieldDescriptor>) -> Schema {
    let mut schema = Schema::new();
    schema.classes.push(ClassDescriptor { name: Name { name: "C".to_string(), alias: None }, fields });
    schema
}

#[test]
fn an_alias_that_names_another_field_is_not_read_back() {
    let schema = one_class(vec![
        field("f", Some("g"), prim(TypeValue::Int)),
        field("g", Some("h"), prim(TypeValue::Int)),
    ]);
    let target = FieldType::Class("C".to_string());
    let (first, second) = twice(&schema, &target, &object(vec![("h", whole(1))]));
    assert_eq!(first, BamlValue::Class("C".to_string(), vec![("g".to_string(), BamlValue::Int(1))]));
    assert_eq!(
        second,
        BamlValue::Class(
            "C".to_string(),
            vec![("f".to_string(), BamlValue::Int(1)), ("g".to_string(), BamlValue::Int(1))],
        )
    );
}

#[test]
fn two_fields_of_one_name_are_not_read_back() {
    let schema = one_class(vec![
        field("a", None, prim(TypeValue::Int)),
        field("a", None, prim(TypeValue::String)),
    ]);
    let target = FieldType::Class("C".to_string());
    let (first, second) = twice(&schema, &target, &object(vec![("a", words("1"))]));
    assert_eq!(
        first,
        BamlValue::Class(
            "C".to_string(),
            vec![("a".to_string(), BamlValue::Int(1)), ("a".to_string(), BamlValue::String("1".to_string()))],
        )
    );
    assert_eq!(second, BamlValue::Class("C".to_string(), vec![("a".to_string(), BamlValue::Int(1))]));
}

#[test]
fn a_union_inside_a_class_that_shares_a_shape_is_not_read_back() {
    let mut schema = one_class(vec![field("a", None, prim(TypeValue::Float))]);
    schema.classes.push(ClassDescriptor {
        name: Name { name: "Outer".to_string(), alias: None },
        fields: vec![field(
            "inner",
            None,
            FieldType::Union(vec![
                FieldType::Class("C".to_string()),
                FieldType::MapOf(Box::new(prim(TypeValue::String)), Box::new(prim(TypeValue::Int))),
            ]),
        )],
    });
    let target = FieldType::Class("Outer".to_string());
    let input = object(vec![("inner", object(vec![("a", words("12"))]))]);
    let (first, second) = twice(&schema, &target, &input);
    assert_eq!(
        first,
        BamlValue::Class(
            "Outer".to_string(),
            vec![("inner".to_string(), BamlValue::MapOf(vec![("a".to_string(), BamlValue::Int(12))]))],
        )
    );
    assert_eq!(
        second,
        BamlValue::Class(
            "Outer".to_string(),
            vec![(
                "inner".to_string(),
                BamlValue::Class("C".to_string(), vec![("a".to_string(), BamlValue::Float("12".to_string()))]),
            )],
        )
    );
}

#[test]
fn a_map_of_values_that_are_not_read_back_is_not_read_back() {
    let mut schema = one_class(vec![field("a", None, prim(TypeValue::Float))]);
    schema.classes.push(ClassDescriptor {
        name: Name { name: "D".to_string(), alias: None },
        fields: vec![
            field("f", Some("g"), prim(TypeValue::Int)),
            field("g", Some("h"), prim(TypeValue::Int)),
        ],
    });
    let numbers = FieldType::MapOf(Box::new(prim(TypeValue::String)), Box::new(prim(TypeValue::Int)));
    let either = FieldType::Union(vec![FieldType::Class("C".to_string()), numbers]);
    let target = FieldType::MapOf(Box::new(prim(TypeValue::String)), Box::new(either));
    let input = object(vec![("k", object(vec![("a", words("12"))]))]);
    let (first, second) = twice(&schema, &target, &input);
    assert_eq!(
        first,
        BamlValue::MapOf(vec![(
            "k".to_string(),
            BamlValue::MapOf(vec![("a".to_string(), BamlValue::Int(12))]),
        )])
    );
    assert_eq!(
        second,
        BamlValue::MapOf(vec![(
            "k".to_string(),
            BamlValue::Class("C".to_string(), vec![("a".to_string(), BamlValue::Float("12".to_string()))]),
        )])
    );
    let target = FieldType::MapOf(Box::new(prim(TypeValue::String)), Box::new(FieldType::Class("D".to_string())));
    let input = object(vec![("k", object(vec![("h", whole(1))]))]);
    let (first, second) = twice(&schema, &target, &input);
    assert_eq!(
        first,
        BamlValue::MapOf(vec![(
            "k".to_string(),
            BamlValue::Class("D".to_string(), vec![("g".to_string(), BamlValue::Int(1))]),
        )])
    );
    assert_eq!(
        second,
        BamlValue::MapOf(vec![(
            "k".to_string(),
            BamlValue::Class(
                "D".to_string(),
                vec![("f".to_string(), BamlValue::Int(1)), ("g".to_string(), BamlValue::Int(1))],
            ),
        )])
    );
}
