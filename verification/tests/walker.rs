use indexmap::IndexMap;
use jsonish::field_type::{FieldType, MediaKind, TypeValue};
use jsonish::ir::env::EnvValues;
use jsonish::ir::env_vars::{has_option, provider_to_env_vars, required_env_vars_of};
use jsonish::ir::error::{IrError, ItemKind};
use jsonish::ir::jinja::plain_expression;
use jsonish::ir::repr;
use jsonish::ir::repr::{
    ClientSpec, Expression, FunctionConfig, Identifier, IntermediateRepr, JinjaExpression, Node,
    NodeAttributes, RetryPolicyId, RetryPolicyStrategy,
};
use jsonish::ir::walker::{Class, Client, Enum, EnumValue, Field, FunctionNode, Impl, TestCase, Walker};
use jsonish::span::{SourceFile, Span};
use jsonish::typed::BamlValue;

fn no_attributes() -> NodeAttributes {
    NodeAttributes { meta: IndexMap::new(), span: None }
}

fn attributes(entries: Vec<(&str, Expression)>) -> NodeAttributes {
    let mut meta = IndexMap::new();
    for (key, value) in entries {
        meta.insert(key.to_string(), value);
    }
    NodeAttributes { meta, span: Some(span()) }
}

fn span() -> Span {
    Span { file: SourceFile { path: "main.baml".to_string(), contents: String::new() }, start: 1, end: 2 }
}

fn string(s: &str) -> Expression {
    Expression::String(s.to_string())
}

fn env_var(name: &str) -> Expression {
    Expression::Identifier(Identifier::ENV(name.to_string()))
}

fn env(pairs: Vec<(&str, &str)>) -> EnvValues {
    let mut values = EnvValues::new();
    for (name, value) in pairs {
        values.insert(name.to_string(), value.to_string());
    }
    values
}

fn enum_value(name: &str, attrs: NodeAttributes) -> (EnumValue, Option<String>) {
    (Node { attributes: attrs, elem: repr::EnumValue(name.to_string()) }, None)
}

fn field(name: &str, field_type: FieldType, attrs: NodeAttributes) -> Field {
    Node {
        attributes: attrs,
        elem: repr::Field {
            name: name.to_string(),
            field_type: Node { attributes: no_attributes(), elem: field_type },
        },
    }
}

fn client(name: &str, provider: &str, options: Vec<(&str, Expression)>) -> Client {
    Node {
        attributes: no_attributes(),
        elem: repr::Client {
            name: name.to_string(),
            provider: provider.to_string(),
            retry_policy_id: Some("Backoff".to_string()),
            options: options.into_iter().map(|(k, v)| (k.to_string(), v)).collect(),
        },
    }
}

fn test_case(name: &str, args: Vec<(&str, Expression)>) -> TestCase {
    let mut map = IndexMap::new();
    for (key, value) in args {
        map.insert(key.to_string(), value);
    }
    Node { attributes: attributes(vec![]), elem: repr::TestCase { name: name.to_string(), args: map } }
}

fn function(name: &str, clients: Vec<ClientSpec>, tests: Vec<TestCase>) -> FunctionNode {
    Node {
        attributes: attributes(vec![]),
        elem: repr::Function {
            name: name.to_string(),
            inputs: vec![("text".to_string(), FieldType::Primitive(TypeValue::String))],
            output: FieldType::Class("Resume".to_string()),
            tests,
            configs: clients
                .into_iter()
                .enumerate()
                .map(|(i, client)| FunctionConfig {
                    name: format!("config{}", i),
                    prompt_template: "{{ text }}".to_string(),
                    client,
                })
                .collect(),
        },
    }
}

fn sample() -> IntermediateRepr {
    let mut ir = IntermediateRepr::new();
    ir.enums.push(Node {
        attributes: attributes(vec![("alias", string("Colour"))]),
        elem: repr::Enum {
            name: "Color".to_string(),
            values: vec![
                enum_value("RED", attributes(vec![("alias", string("rouge")), ("description", env_var("RED_TEXT"))])),
                enum_value("GREEN", attributes(vec![("skip", Expression::Bool(true))])),
                enum_value("BLUE", attributes(vec![("skip", env_var("SKIP_BLUE"))])),
                enum_value("RED", no_attributes()),
            ],
        },
    });
    ir.classes.push(Node {
        attributes: attributes(vec![("alias", Expression::RawString("CV".to_string()))]),
        elem: repr::Class {
            name: "Resume".to_string(),
            static_fields: vec![
                field("name", FieldType::Primitive(TypeValue::String), attributes(vec![("alias", string("full_name"))])),
                field(
                    "photo",
                    FieldType::Primitive(TypeValue::Media(MediaKind::Image)),
                    attributes(vec![("description", Expression::Bool(true))]),
                ),
                field(
                    "age",
                    FieldType::Primitive(TypeValue::Int),
                    attributes(vec![(
                        "description",
                        Expression::JinjaExpression(JinjaExpression("'in ' ~ unit".to_string())),
                    )]),
                ),
            ],
            inputs: vec![("seed".to_string(), FieldType::Primitive(TypeValue::Int))],
        },
    });
    ir.clients.push(client("GPT", "openai", vec![("model", string("gpt")), ("api_key", env_var("MY_KEY"))]));
    ir.clients.push(client(
        "Bedrock",
        "aws-bedrock",
        vec![
            ("region", string("eu")),
            ("extra", Expression::List(vec![env_var("A"), Expression::MapOf(vec![(env_var("B"), env_var("A"))])])),
        ],
    ));
    ir.clients.push(client("GPT", "anthropic", vec![]));
    ir.functions.push(function(
        "Extract",
        vec![ClientSpec::Named("GPT".to_string()), ClientSpec::Named("Bedrock".to_string())],
        vec![
            test_case("simple", vec![("text", string("hi")), ("count", Expression::Numeric("3".to_string()))]),
            test_case("other", vec![]),
            test_case("simple", vec![("shadowed", Expression::Bool(false))]),
        ],
    ));
    ir.functions.push(function("Short", vec![ClientSpec::Shorthand("vertex-ai".to_string(), "gemini".to_string())], vec![]));
    ir.functions.push(function("Lost", vec![ClientSpec::Named("Nowhere".to_string())], vec![]));
    ir.functions.push(function("Bare", vec![], vec![]));
    ir.retry_policies.push(Node {
        attributes: no_attributes(),
        elem: repr::RetryPolicy {
            name: RetryPolicyId("Backoff".to_string()),
            max_retries: 3,
            strategy: RetryPolicyStrategy::ExponentialBackoff {
                delay_ms: 200,
                multiplier: "1.5".to_string(),
                max_delay_ms: 10000,
            },
        },
    });
    ir.template_strings.push(Node {
        attributes: attributes(vec![]),
        elem: repr::TemplateString {
            name: "Greeting".to_string(),
            params: vec![repr::Field {
                name: "who".to_string(),
                field_type: Node { attributes: no_attributes(), elem: FieldType::Primitive(TypeValue::String) },
            }],
            content: "Hello {{ who }}".to_string(),
        },
    });
    ir.finite_recursive_cycles.push(vec!["Resume".to_string()]);
    ir
}

#[test]
fn basic_jinja_normalization() {
    let expr = Expression::JinjaExpression(JinjaExpression("this == 'hello'".to_string()));
    let env = env(vec![("this", "hello")]);
    let normalized = expr.normalize(&env).unwrap();
    match normalized {
        BamlValue::String(s) => assert_eq!(&s, "true"),
        _ => panic!("Expected String Expression"),
    }
}

#[test]
fn jinja_expressions_are_rendered_with_the_environment() {
    let render = |source: &str, env: &EnvValues| {
        Expression::JinjaExpression(JinjaExpression(source.to_string())).normalize(env)
    };
    let values = env(vec![("name", "World"), ("n", "3")]);
    assert_eq!(render("'Hello ' ~ name", &values), Ok(BamlValue::String("Hello World".to_string())));
    assert_eq!(render("name | upper", &values), Ok(BamlValue::String("WORLD".to_string())));
    assert_eq!(render("n", &values), Ok(BamlValue::String("3".to_string())));
    assert_eq!(render("1 + 2", &EnvValues::new()), Ok(BamlValue::String("3".to_string())));
    assert_eq!(render("this == 'hello'", &env(vec![("this", "bye")])), Ok(BamlValue::String("false".to_string())));
    assert_eq!(render("1 +", &values), Err(IrError::RenderFailed("1 +".to_string())));
    assert_eq!(render("name |", &values), Err(IrError::RenderFailed("name |".to_string())));
}

#[test]
fn expressions_stand_for_values() {
    let values = env(vec![("HOME", "/root")]);
    let cases: Vec<(Expression, Result<BamlValue, IrError>)> = vec![
        (env_var("HOME"), Ok(BamlValue::String("/root".to_string()))),
        (env_var("AWAY"), Err(IrError::EnvVarNotFound("AWAY".to_string()))),
        (
            Expression::Identifier(Identifier::Ref(vec!["a".to_string(), "b".to_string(), "c".to_string()])),
            Ok(BamlValue::String("a.b.c".to_string())),
        ),
        (Expression::Identifier(Identifier::Ref(vec![])), Ok(BamlValue::String(String::new()))),
        (Expression::Identifier(Identifier::Local("true".to_string())), Ok(BamlValue::Bool(true))),
        (Expression::Identifier(Identifier::Local("false".to_string())), Ok(BamlValue::Bool(false))),
        (Expression::Identifier(Identifier::Local("null".to_string())), Ok(BamlValue::Null)),
        (Expression::Identifier(Identifier::Local("True".to_string())), Ok(BamlValue::String("True".to_string()))),
        (
            Expression::Identifier(Identifier::Primitive(TypeValue::Media(MediaKind::Audio))),
            Ok(BamlValue::String("audio".to_string())),
        ),
        (Expression::Identifier(Identifier::Primitive(TypeValue::Int)), Ok(BamlValue::String("int".to_string()))),
        (Expression::Bool(false), Ok(BamlValue::Bool(false))),
        (string("s"), Ok(BamlValue::String("s".to_string()))),
        (Expression::RawString("r".to_string()), Ok(BamlValue::String("r".to_string()))),
        (Expression::Numeric("42".to_string()), Ok(BamlValue::Int(42))),
        (Expression::Numeric("-42".to_string()), Ok(BamlValue::Int(-42))),
        (Expression::Numeric("4.2".to_string()), Ok(BamlValue::Float("4.2".to_string()))),
        (Expression::Numeric("1e3".to_string()), Ok(BamlValue::Float("1e3".to_string()))),
        (
            Expression::Numeric("9223372036854775808".to_string()),
            Ok(BamlValue::Float("9223372036854775808".to_string())),
        ),
        (Expression::Numeric("4.2.1".to_string()), Err(IrError::InvalidNumeric("4.2.1".to_string()))),
        (Expression::Numeric(String::new()), Err(IrError::InvalidNumeric(String::new()))),
        (Expression::List(vec![]), Ok(BamlValue::List(vec![]))),
        (
            Expression::List(vec![Expression::Bool(true), Expression::List(vec![string("x")])]),
            Ok(BamlValue::List(vec![
                BamlValue::Bool(true),
                BamlValue::List(vec![BamlValue::String("x".to_string())]),
            ])),
        ),
        (
            Expression::List(vec![env_var("AWAY"), Expression::Numeric("x".to_string())]),
            Err(IrError::EnvVarNotFound("AWAY".to_string())),
        ),
        (
            Expression::List(vec![string("fine"), Expression::Numeric("x".to_string()), env_var("AWAY")]),
            Err(IrError::InvalidNumeric("x".to_string())),
        ),
        (
            Expression::MapOf(vec![
                (string("a"), Expression::Numeric("1".to_string())),
                (Expression::Identifier(Identifier::Local("b".to_string())), env_var("HOME")),
                (env_var("HOME"), Expression::Bool(true)),
                (string("a"), Expression::Numeric("2".to_string())),
            ]),
            Ok(BamlValue::MapOf(vec![
                ("a".to_string(), BamlValue::Int(2)),
                ("b".to_string(), BamlValue::String("/root".to_string())),
                ("/root".to_string(), BamlValue::Bool(true)),
            ])),
        ),
        (
            Expression::MapOf(vec![(Expression::Bool(true), env_var("AWAY"))]),
            Err(IrError::ExpectedString(Expression::Bool(true))),
        ),
        (
            Expression::MapOf(vec![(string("k"), env_var("AWAY")), (Expression::Bool(true), string("v"))]),
            Err(IrError::EnvVarNotFound("AWAY".to_string())),
        ),
    ];
    for (expression, expected) in cases {
        assert_eq!(expression.normalize(&values), expected, "for {:?}", expression);
    }
}

#[test]
fn expressions_stand_for_booleans_and_texts() {
    let values = env(vec![("SET", "")]);
    assert_eq!(Expression::Bool(true).as_bool(&values), Ok(true));
    assert_eq!(env_var("SET").as_bool(&values), Ok(true));
    assert_eq!(env_var("UNSET").as_bool(&values), Ok(false));
    assert_eq!(string("true").as_bool(&values), Err(IrError::ExpectedBool(string("true"))));
    assert_eq!(
        Expression::Identifier(Identifier::Local("true".to_string())).as_bool(&values),
        Err(IrError::ExpectedBool(Expression::Identifier(Identifier::Local("true".to_string()))))
    );
    assert_eq!(string("s").as_string_value(&values), Ok("s".to_string()));
    assert_eq!(Expression::RawString("r".to_string()).as_string_value(&values), Ok("r".to_string()));
    assert_eq!(env_var("SET").as_string_value(&values), Ok(String::new()));
    assert_eq!(env_var("UNSET").as_string_value(&values), Err(IrError::EnvVarNotFound("UNSET".to_string())));
    assert_eq!(
        Expression::Identifier(Identifier::Local("name".to_string())).as_string_value(&values),
        Ok("name".to_string())
    );
    assert_eq!(
        Expression::Identifier(Identifier::Ref(vec!["a".to_string(), "b".to_string()])).as_string_value(&values),
        Ok("a.b".to_string())
    );
    assert_eq!(
        Expression::Identifier(Identifier::Primitive(TypeValue::Float)).as_string_value(&values),
        Ok("float".to_string())
    );
    for other in [
        Expression::Bool(true),
        Expression::Numeric("1".to_string()),
        Expression::List(vec![]),
        Expression::MapOf(vec![]),
        Expression::JinjaExpression(JinjaExpression("1".to_string())),
    ] {
        assert_eq!(other.as_string_value(&values), Err(IrError::ExpectedString(other.clone())));
    }
}

#[test]
fn environment_values_are_kept_by_name() {
    let mut values = EnvValues::new();
    assert_eq!(values.len(), 0);
    assert_eq!(values.get("A"), None);
    assert!(!values.contains_key("A"));
    values.insert("A".to_string(), "1".to_string());
    values.insert("B".to_string(), "2".to_string());
    values.insert("A".to_string(), "3".to_string());
    assert_eq!(values.len(), 2);
    assert_eq!(values.get("A"), Some(&"3".to_string()));
    assert_eq!(values.get("B"), Some(&"2".to_string()));
    assert_eq!(values.get("a"), None);
    assert!(values.contains_key("B"));
    assert_eq!(
        values.pairs(),
        &vec![("A".to_string(), "3".to_string()), ("B".to_string(), "2".to_string())]
    );
}

#[test]
fn providers_have_their_variables() {
    assert_eq!(
        provider_to_env_vars("aws-bedrock"),
        vec![
            (None, "AWS_ACCESS_KEY_ID"),
            (None, "AWS_SECRET_ACCESS_KEY"),
            (Some("region"), "AWS_REGION"),
        ]
    );
    assert_eq!(provider_to_env_vars("openai"), vec![(Some("api_key"), "OPENAI_API_KEY")]);
    assert_eq!(provider_to_env_vars("anthropic"), vec![(Some("api_key"), "ANTHROPIC_API_KEY")]);
    assert_eq!(provider_to_env_vars("google-ai"), vec![(Some("api_key"), "GOOGLE_API_KEY")]);
    assert_eq!(
        provider_to_env_vars("vertex-ai"),
        vec![
            (Some("credentials"), "GOOGLE_APPLICATION_CREDENTIALS"),
            (Some("credentials_content"), "GOOGLE_APPLICATION_CREDENTIALS_CONTENT"),
        ]
    );
    assert_eq!(provider_to_env_vars("azure-openai"), vec![(Some("api_key"), "AZURE_OPENAI_API_KEY")]);
    assert_eq!(provider_to_env_vars("openai-generic"), vec![(Some("api_key"), "OPENAI_API_KEY")]);
    assert!(provider_to_env_vars("ollama").is_empty());
    assert!(provider_to_env_vars("OpenAI").is_empty());
    assert!(provider_to_env_vars("").is_empty());
}

#[test]
fn expressions_name_their_environment_variables() {
    assert_eq!(env_var("A").required_env_vars(), vec!["A".to_string()]);
    assert!(string("A").required_env_vars().is_empty());
    assert!(Expression::Identifier(Identifier::Local("A".to_string())).required_env_vars().is_empty());
    let nested = Expression::List(vec![
        env_var("A"),
        string("x"),
        Expression::MapOf(vec![(env_var("K"), Expression::List(vec![env_var("V"), env_var("A")]))]),
        env_var("Z"),
    ]);
    assert_eq!(
        nested.required_env_vars(),
        vec!["A".to_string(), "K".to_string(), "V".to_string(), "A".to_string(), "Z".to_string()]
    );
}

#[test]
fn a_client_needs_what_its_options_name_and_what_no_option_replaces() {
    let ir = sample();
    let gpt = ir.find_client("GPT").expect("declared");
    // The client sets `api_key`, so the provider's own variable is not needed.
    assert_eq!(gpt.required_env_vars(), vec!["MY_KEY".to_string()]);
    let bedrock = ir.find_client("Bedrock").expect("declared");
    // `A` is named twice and listed once; `region` is set, so its variable is not needed.
    assert_eq!(
        bedrock.required_env_vars(),
        vec![
            "A".to_string(),
            "B".to_string(),
            "AWS_ACCESS_KEY_ID".to_string(),
            "AWS_SECRET_ACCESS_KEY".to_string(),
        ]
    );
    assert_eq!(
        required_env_vars_of(&vec![], "aws-bedrock"),
        vec![
            "AWS_ACCESS_KEY_ID".to_string(),
            "AWS_SECRET_ACCESS_KEY".to_string(),
            "AWS_REGION".to_string(),
        ]
    );
    assert!(required_env_vars_of(&vec![], "ollama").is_empty());
    // A variable that an option names and the provider needs is listed once.
    let named = vec![("token".to_string(), env_var("OPENAI_API_KEY"))];
    assert_eq!(required_env_vars_of(&named, "openai"), vec!["OPENAI_API_KEY".to_string()]);
    let options = vec![("region".to_string(), string("eu"))];
    assert!(has_option(&options, "region"));
    assert!(!has_option(&options, "Region"));
    assert!(!has_option(&vec![], "region"));
}

#[test]
fn a_function_needs_what_its_first_client_needs() {
    let ir = sample();
    let extract = ir.find_function("Extract").expect("declared");
    assert_eq!(extract.required_env_vars(), Ok(vec!["MY_KEY".to_string()]));
    let short = ir.find_function("Short").expect("declared");
    assert_eq!(
        short.required_env_vars(),
        Ok(vec![
            "GOOGLE_APPLICATION_CREDENTIALS".to_string(),
            "GOOGLE_APPLICATION_CREDENTIALS_CONTENT".to_string(),
        ])
    );
    let lost = ir.find_function("Lost").expect("declared");
    assert_eq!(
        lost.required_env_vars(),
        Err(IrError::NotFound(ItemKind::Client, "Nowhere".to_string()))
    );
    let bare = ir.find_function("Bare").expect("declared");
    assert_eq!(bare.required_env_vars(), Err(IrError::FunctionHasNoClient("Bare".to_string())));
}

#[test]
fn function_walker_reads_the_function() {
    let ir = sample();
    let extract = ir.find_function("Extract").expect("declared");
    assert_eq!(extract.name(), "Extract");
    assert!(!extract.is_v1());
    assert!(extract.is_v2());
    assert_eq!(extract.client_name(), Some("GPT".to_string()));
    assert_eq!(extract.output(), &FieldType::Class("Resume".to_string()));
    assert_eq!(extract.inputs(), &vec![("text".to_string(), FieldType::Primitive(TypeValue::String))]);
    assert_eq!(extract.elem().configs.len(), 2);
    assert_eq!(extract.span(), Some(&span()));
    let impls = extract.walk_impls();
    assert_eq!(impls.len(), 2);
    assert_eq!(impls[0].item.1.name, "config0");
    assert_eq!(impls[1].item.1.client, ClientSpec::Named("Bedrock".to_string()));
    assert_eq!(impls[1].item.0.name, "Extract");
    let short = ir.find_function("Short").expect("declared");
    assert_eq!(short.client_name(), Some("vertex-ai/gemini".to_string()));
    assert_eq!(ir.find_function("Bare").expect("declared").client_name(), None);
    assert!(ir.find_function("Bare").expect("declared").walk_impls().is_empty());
    assert_eq!(
        ir.find_function("extract").err(),
        Some(IrError::NotFound(ItemKind::Function, "extract".to_string()))
    );
    let names: Vec<&str> = ir.walk_functions().iter().map(|f| f.name()).collect();
    assert_eq!(names, vec!["Extract", "Short", "Lost", "Bare"]);
}

#[test]
fn test_walker_reads_the_test() {
    let ir = sample();
    let extract = ir.find_function("Extract").expect("declared");
    let tests = extract.walk_tests();
    assert_eq!(tests.len(), 3);
    assert_eq!(tests[1].name(), "Extract::other");
    let simple = extract.find_test("simple").expect("declared");
    assert_eq!(simple.name(), "Extract::simple");
    assert!(simple.matches("Extract", "simple"));
    assert!(!simple.matches("Extract", "other"));
    assert!(!simple.matches("Short", "simple"));
    assert_eq!(simple.test_case().name, "simple");
    // The first test of the name is the one that is found.
    assert_eq!(simple.args().len(), 2);
    assert_eq!(simple.args().get_index(1), Some((&"count".to_string(), &Expression::Numeric("3".to_string()))));
    assert_eq!(simple.function().name(), "Extract");
    assert_eq!(simple.span(), Some(&span()));
    assert!(extract.find_test("missing").is_none());
    assert!(extract.find_test("Simple").is_none());
}

#[test]
fn test_parameters_are_evaluated_one_by_one() {
    let function = function(
        "F",
        vec![],
        vec![test_case(
            "t",
            vec![
                ("text", string("hi")),
                ("key", env_var("KEY")),
                ("missing", env_var("MISSING")),
                ("count", Expression::Numeric("3".to_string())),
                ("bad", Expression::Numeric("three".to_string())),
                ("list", Expression::List(vec![Expression::Bool(true)])),
            ],
        )],
    );
    let ir = IntermediateRepr::new();
    let walker = Walker { db: &ir, item: &function };
    let test = walker.find_test("t").expect("declared");
    let params = test.test_case_params(&env(vec![("KEY", "secret")])).expect("the call does not fail");
    let keys: Vec<&str> = params.keys().map(|k| k.as_str()).collect();
    assert_eq!(keys, vec!["text", "key", "missing", "count", "bad", "list"]);
    assert_eq!(params["text"], Ok(BamlValue::String("hi".to_string())));
    assert_eq!(params["key"], Ok(BamlValue::String("secret".to_string())));
    assert_eq!(params["missing"], Err(IrError::EnvVarNotFound("MISSING".to_string())));
    assert_eq!(params["count"], Ok(BamlValue::Int(3)));
    assert_eq!(params["bad"], Err(IrError::InvalidNumeric("three".to_string())));
    assert_eq!(params["list"], Ok(BamlValue::List(vec![BamlValue::Bool(true)])));
    let empty = Walker { db: &ir, item: &function };
    let none = function_of_no_arguments();
    let walker = Walker { db: &ir, item: &none };
    assert!(walker.find_test("t").expect("declared").test_case_params(&EnvValues::new()).expect("ok").is_empty());
    assert_eq!(empty.name(), "F");
}

fn function_of_no_arguments() -> FunctionNode {
    function("G", vec![], vec![test_case("t", vec![])])
}

#[test]
fn enum_walker_reads_the_enum() {
    let ir = sample();
    let values = env(vec![("RED_TEXT", "the colour of fire")]);
    let color = ir.find_enum("Color").expect("declared");
    assert_eq!(color.name(), "Color");
    assert_eq!(color.alias(&values), Ok(Some("Colour".to_string())));
    assert_eq!(color.elem().values.len(), 4);
    assert_eq!(color.span(), Some(&span()));
    let members = color.walk_values();
    let names: Vec<&str> = members.iter().map(|m| m.name()).collect();
    assert_eq!(names, vec!["RED", "GREEN", "BLUE", "RED"]);
    let red = color.find_value("RED").expect("declared");
    // The first member of the name is the one that is found.
    assert_eq!(red.alias(&values), Ok(Some("rouge".to_string())));
    assert_eq!(red.description(&values), Ok(Some("the colour of fire".to_string())));
    assert_eq!(red.description(&EnvValues::new()), Err(IrError::EnvVarNotFound("RED_TEXT".to_string())));
    assert_eq!(red.skip(&values), Ok(false));
    let green = color.find_value("GREEN").expect("declared");
    assert_eq!(green.skip(&values), Ok(true));
    assert_eq!(green.alias(&values), Ok(None));
    assert_eq!(green.description(&values), Ok(None));
    let blue = color.find_value("BLUE").expect("declared");
    assert_eq!(blue.skip(&values), Ok(false));
    assert_eq!(blue.skip(&env(vec![("SKIP_BLUE", "0")])), Ok(true));
    assert!(color.find_value("PINK").is_none());
    assert_eq!(ir.find_enum("Colour").err(), Some(IrError::NotFound(ItemKind::Enum, "Colour".to_string())));
    assert_eq!(ir.walk_enums().len(), 1);
}

#[test]
fn a_skip_attribute_must_be_a_boolean() {
    let ir = IntermediateRepr::new();
    let member: EnumValue = Node {
        attributes: attributes(vec![("skip", string("yes"))]),
        elem: repr::EnumValue("A".to_string()),
    };
    let walker = Walker { db: &ir, item: &member };
    assert_eq!(walker.skip(&EnvValues::new()), Err(IrError::ExpectedBool(string("yes"))));
    assert_eq!(walker.name(), "A");
}

#[test]
fn class_walker_reads_the_class() {
    let ir = sample();
    let values = env(vec![("unit", "years")]);
    let resume = ir.find_class("Resume").expect("declared");
    assert_eq!(resume.name(), "Resume");
    assert_eq!(resume.alias(&values), Ok(Some("CV".to_string())));
    assert_eq!(resume.inputs(), &vec![("seed".to_string(), FieldType::Primitive(TypeValue::Int))]);
    assert_eq!(resume.elem().static_fields.len(), 3);
    assert_eq!(resume.span(), Some(&span()));
    let names: Vec<&str> = resume.walk_fields().iter().map(|f| f.name()).collect();
    assert_eq!(names, vec!["name", "photo", "age"]);
    let name = resume.find_field("name").expect("declared");
    assert_eq!(name.name(), "name");
    assert_eq!(name.field_type(), &FieldType::Primitive(TypeValue::String));
    assert_eq!(name.alias(&values), Ok(Some("full_name".to_string())));
    assert_eq!(name.description(&values), Ok(None));
    assert_eq!(name.elem().name, "name");
    assert_eq!(name.span(), Some(&span()));
    let photo = resume.find_field("photo").expect("declared");
    assert_eq!(photo.description(&values), Err(IrError::NonStringValue));
    assert_eq!(photo.alias(&values), Ok(None));
    let age = resume.find_field("age").expect("declared");
    assert_eq!(age.description(&values), Ok(Some("in years".to_string())));
    assert!(resume.find_field("Name").is_none());
    assert_eq!(ir.find_class("CV").err(), Some(IrError::NotFound(ItemKind::Class, "CV".to_string())));
    assert_eq!(ir.walk_classes().len(), 1);
    assert_eq!(ir.finite_recursive_cycles(), &vec![vec!["Resume".to_string()]]);
}

#[test]
fn client_walker_reads_the_client() {
    let ir = sample();
    let gpt = ir.find_client("GPT").expect("declared");
    // The first client of the name is the one that is found.
    assert_eq!(gpt.elem().provider, "openai");
    assert_eq!(gpt.name(), "GPT");
    assert_eq!(gpt.retry_policy(), &Some("Backoff".to_string()));
    assert_eq!(gpt.options().len(), 2);
    assert_eq!(gpt.span(), None);
    assert_eq!(ir.walk_clients().len(), 3);
    assert_eq!(ir.find_client("").err(), Some(IrError::NotFound(ItemKind::Client, String::new())));
}

#[test]
fn retry_policy_and_template_walkers_read_their_items() {
    let ir = sample();
    let policy = ir.find_retry_policy("Backoff").expect("declared");
    assert_eq!(policy.name(), "Backoff");
    assert_eq!(policy.max_retries(), 3);
    assert_eq!(
        policy.strategy(),
        &RetryPolicyStrategy::ExponentialBackoff {
            delay_ms: 200,
            multiplier: "1.5".to_string(),
            max_delay_ms: 10000,
        }
    );
    assert_eq!(policy.elem().max_retries, 3);
    assert_eq!(policy.span(), None);
    assert_eq!(
        ir.find_retry_policy("None").err(),
        Some(IrError::NotFound(ItemKind::RetryPolicy, "None".to_string()))
    );
    assert_eq!(ir.walk_retry_policies().len(), 1);
    let template = ir.find_template_string("Greeting").expect("declared");
    assert_eq!(template.name(), "Greeting");
    assert_eq!(template.template(), "Hello {{ who }}");
    assert_eq!(template.inputs().len(), 1);
    assert_eq!(template.inputs()[0].name, "who");
    assert_eq!(template.elem().content, "Hello {{ who }}");
    assert_eq!(template.span(), Some(&span()));
    assert_eq!(
        ir.find_template_string("greeting").err(),
        Some(IrError::NotFound(ItemKind::TemplateString, "greeting".to_string()))
    );
    assert_eq!(ir.walk_template_strings().len(), 1);
}

#[test]
fn implementation_walker_reads_the_implementation() {
    let ir = sample();
    let function = function("F", vec![], vec![]);
    let implementation: Impl = Node {
        attributes: no_attributes(),
        elem: repr::Implementation {
            name: "v1".to_string(),
            function_name: "F".to_string(),
            prompt: "p".to_string(),
            client: "GPT".to_string(),
        },
    };
    let walker = Walker { db: &ir, item: (&function, &implementation) };
    assert_eq!(walker.elem().name, "v1");
    assert_eq!(walker.elem().client, "GPT");
    assert_eq!(walker.function().name(), "F");
}

#[test]
fn attributes_are_read_by_name() {
    let attrs = attributes(vec![("alias", string("a")), ("skip", Expression::Bool(true)), ("alias", string("b"))]);
    assert_eq!(attrs.get("alias"), Some(&string("b")));
    assert_eq!(attrs.get("skip"), Some(&Expression::Bool(true)));
    assert_eq!(attrs.get("Alias"), None);
    assert_eq!(no_attributes().get("alias"), None);
}

#[test]
fn unused_items_of_the_sample_are_classes() {
    let class: Class = Node {
        attributes: no_attributes(),
        elem: repr::Class { name: "Empty".to_string(), static_fields: vec![], inputs: vec![] },
    };
    let ir = IntermediateRepr::new();
    let walker = Walker { db: &ir, item: &class };
    assert!(walker.walk_fields().is_empty());
    assert_eq!(walker.alias(&EnvValues::new()), Ok(None));
    let e: Enum = Node {
        attributes: no_attributes(),
        elem: repr::Enum { name: "Empty".to_string(), values: vec![] },
    };
    let walker = Walker { db: &ir, item: &e };
    assert!(walker.walk_values().is_empty());
    assert!(walker.find_value("x").is_none());
}

#[test]
fn a_template_expression_that_is_not_plain_is_not_rendered() {
    let values = env(vec![("x", "1")]);
    let sources = vec![
        "1 }}{% for x in [1] %}{{ loop.cycle() }}{% endfor %}{{ 1",
        "{% if x %}",
        "x {%",
        "{%",
        "'x'[-9223372036854775808]",
        "[1][-9223372036854775808]",
        "x[0 - 9223372036854775807 - 1]",
        "''|indent(9223372036854775808)",
        "[]|slice(9223372036854775808)",
        "[]|batch(9223372036854775808)",
        "x|map('indent', 9223372036854775808)",
        "range(3)",
        "(1 + 2) * 3",
        "{'a': 1}",
        "1 }} and {{ x",
        "{# note #}",
    ];
    for source in sources {
        assert!(!plain_expression(source));
        let expression = Expression::JinjaExpression(JinjaExpression(source.to_string()));
        assert_eq!(expression.normalize(&values), Err(IrError::RenderFailed(source.to_string())));
    }
    for source in ["", "x", "%", "x | upper", "a.b", "1 }} x", "]", ")", "}", "{", "[", "(", "a(", "é["] {
        let opens = source.contains('{') || source.contains('[') || source.contains('(');
        assert_eq!(plain_expression(source), !opens, "for {:?}", source);
    }
}

#[test]
fn a_template_expression_is_rendered_up_to_a_length() {
    let render = |source: &str| {
        Expression::JinjaExpression(JinjaExpression(source.to_string())).normalize(&EnvValues::new())
    };
    let longest = format!("{}1", "-".repeat(255));
    assert_eq!(longest.chars().count(), 256);
    assert!(plain_expression(&longest));
    assert_eq!(render(&longest), Ok(BamlValue::String("-1".to_string())));
    let longer = format!("{}1", "-".repeat(256));
    assert!(!plain_expression(&longer));
    assert_eq!(render(&longer), Err(IrError::RenderFailed(longer.clone())));
    let accented = "'é'".repeat(85);
    assert_eq!(accented.chars().count(), 255);
    assert!(plain_expression(&accented));
    assert_eq!(render(&accented), Ok(BamlValue::String("é".repeat(85))));
    let denied = format!("{}1", "not ".repeat(63));
    assert_eq!(render(&denied), Ok(BamlValue::String("false".to_string())));
    let sum = format!("1{}", "+1".repeat(127));
    assert_eq!(render(&sum), Ok(BamlValue::String("128".to_string())));
}

#[test]
fn plain_template_expressions_fail_without_stopping_the_program() {
    let values = env(vec![("x", "abc")]);
    let render = |source: &str| {
        Expression::JinjaExpression(JinjaExpression(source.to_string())).normalize(&values)
    };
    let failed = |source: &str| Err(IrError::RenderFailed(source.to_string()));
    for source in [
        "1 // 0",
        "1 % 0",
        "9223372036854775807 * 9223372036854775807 * 9223372036854775807 * 9223372036854775807 * 9223372036854775807",
        "2 ** 200",
        "x | indent",
        "x | slice",
        "x | batch",
        "x | replace",
        "x | nothing",
        "x is nothing",
        "x | int",
        "'a",
        "'\\u12'",
        "1 +",
        "0x",
        "1_",
        "é",
        "x.",
        "",
    ] {
        assert_eq!(render(source), failed(source), "for {:?}", source);
    }
    let cases = [
        ("-9223372036854775808 | abs", "9223372036854775808"),
        ("x | list | sort | join", "abc"),
        ("x | reverse", "cba"),
        ("x | length", "3"),
        ("x | first ~ x | last", "ac"),
        ("'b' in x", "true"),
        ("x is defined and y is undefined", "true"),
        ("'yes' if x == 'abc' else 'no'", "yes"),
        ("x.y", ""),
        ("7 // 2", "3"),
        ("1 }} x", "1 x }}"),
    ];
    for (source, text) in cases {
        assert_eq!(render(source), Ok(BamlValue::String(text.to_string())), "for {:?}", source);
    }
}

#[test]
fn failures_have_their_messages() {
    let cases: Vec<(IrError, &str)> = vec![
        (IrError::EnvVarNotFound("HOME".to_string()), "Environment variable HOME not found"),
        (IrError::ExpectedBool(string("yes")), "Expected bool value, got a string"),
        (IrError::ExpectedBool(Expression::List(vec![])), "Expected bool value, got a list"),
        (IrError::ExpectedString(Expression::Bool(true)), "Expected string value, got a boolean"),
        (
            IrError::ExpectedString(Expression::Numeric("1".to_string())),
            "Expected string value, got a number",
        ),
        (
            IrError::ExpectedString(Expression::MapOf(vec![])),
            "Expected string value, got a map",
        ),
        (
            IrError::ExpectedBool(Expression::JinjaExpression(JinjaExpression("x".to_string()))),
            "Expected bool value, got a template expression",
        ),
        (
            IrError::ExpectedBool(Expression::RawString("x".to_string())),
            "Expected bool value, got a raw string",
        ),
        (
            IrError::ExpectedBool(Expression::Identifier(Identifier::Local("x".to_string()))),
            "Expected bool value, got an identifier",
        ),
        (IrError::InvalidNumeric("1.2.3".to_string()), "Invalid numeric value: 1.2.3"),
        (IrError::RenderFailed("(".to_string()), "Could not render expression: ("),
        (IrError::NonStringValue, "Unexpected: Evaluated to non-string value"),
        (IrError::NotFound(ItemKind::Client, "GPT".to_string()), "Client GPT not found"),
        (IrError::NotFound(ItemKind::Enum, "E".to_string()), "Enum E not found"),
        (IrError::NotFound(ItemKind::Class, "C".to_string()), "Class C not found"),
        (IrError::NotFound(ItemKind::Function, "F".to_string()), "Function F not found"),
        (IrError::NotFound(ItemKind::RetryPolicy, "R".to_string()), "Retry policy R not found"),
        (
            IrError::NotFound(ItemKind::TemplateString, "T".to_string()),
            "Template string T not found",
        ),
        (IrError::FunctionHasNoClient("Bare".to_string()), "Function Bare has no client"),
    ];
    for (error, message) in cases {
        assert_eq!(error.message(), message);
    }
}

#[test]
fn the_words_for_numbers_without_end_are_numbers() {
    let values = EnvValues::new();
    for text in ["inf", "-inf", "+Infinity", "NaN", "nan", "-NAN", "INFINITY"] {
        assert_eq!(
            Expression::Numeric(text.to_string()).normalize(&values),
            Ok(BamlValue::Float(text.to_string())),
            "for {:?}",
            text
        );
    }
    for text in ["in", "infinit", "infinityy", "na", "nanx", "+", "i nf", "--inf"] {
        assert_eq!(
            Expression::Numeric(text.to_string()).normalize(&values),
            Err(IrError::InvalidNumeric(text.to_string())),
            "for {:?}",
            text
        );
    }
}

#[test]
fn an_expression_is_copied_whole() {
    let nested = Expression::MapOf(vec![(
        env_var("K"),
        Expression::List(vec![
            string("s"),
            Expression::Numeric("1".to_string()),
            Expression::Identifier(Identifier::Ref(vec!["a".to_string(), "b".to_string()])),
            Expression::Identifier(Identifier::Primitive(TypeValue::Bool)),
            Expression::JinjaExpression(JinjaExpression("x".to_string())),
            Expression::RawString("r".to_string()),
            Expression::Bool(true),
        ]),
    )]);
    assert_eq!(nested.clone(), nested);
}

#[test]
fn environment_names_stay_distinct() {
    let mut values = EnvValues::new();
    for (name, value) in [("A", "1"), ("B", "2"), ("A", "3"), ("C", "4"), ("B", "5"), ("A", "6")] {
        values.insert(name.to_string(), value.to_string());
    }
    let names: Vec<&str> = values.pairs().iter().map(|p| p.0.as_str()).collect();
    assert_eq!(names, vec!["A", "B", "C"]);
    assert_eq!(values.get("A"), Some(&"6".to_string()));
    assert_eq!(values.get("B"), Some(&"5".to_string()));
}
