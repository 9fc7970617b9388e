//! The items of the intermediate representation.

use indexmap::IndexMap;
use vstd::prelude::*;
use crate::field_type::{FieldType, TypeValue};
use crate::span::Span;
use crate::lookup::key_index;
use crate::text::{clone_strings, strings_view};

verus! {

/// An insertion-ordered hash map. Verified code sees it through the entries it
/// holds, read and changed by the functions beside each use.
#[verifier::external_type_specification]
#[verifier::external_body]
#[verifier::reject_recursive_types(K)]
#[verifier::reject_recursive_types(V)]
#[verifier::reject_recursive_types(S)]
pub struct ExIndexMap<K, V, S>(IndexMap<K, V, S>);

/// A name in an expression.
#[derive(Debug, PartialEq, Eq)]
pub enum Identifier {
    /// An environment variable.
    ENV(String),
    /// A dotted path.
    Ref(Vec<String>),
    /// A plain name.
    Local(String),
    /// The name of a primitive type.
    Primitive(TypeValue),
}

/// The mathematical value of an [`Identifier`].
pub enum IdentifierModel {
    ENV(Seq<char>),
    Ref(Seq<Seq<char>>),
    Local(Seq<char>),
    Primitive(TypeValue),
}

impl View for Identifier {
    type V = IdentifierModel;

    open spec fn view(&self) -> IdentifierModel {
        match self {
            Identifier::ENV(name) => IdentifierModel::ENV(name@),
            Identifier::Ref(path) => IdentifierModel::Ref(strings_view(path@)),
            Identifier::Local(name) => IdentifierModel::Local(name@),
            Identifier::Primitive(t) => IdentifierModel::Primitive(*t),
        }
    }
}

/// A template expression, in its source text.
#[derive(Debug, PartialEq, Eq)]
pub struct JinjaExpression(pub String);

/// An expression as it stands in an attribute or an argument.
#[derive(Debug, PartialEq, Eq)]
pub enum Expression {
    Identifier(Identifier),
    Bool(bool),
    /// A number, in its spelling.
    Numeric(String),
    String(String),
    RawString(String),
    List(Vec<Expression>),
    /// Pairs of a key expression and a value expression, in source order.
    MapOf(Vec<(Expression, Expression)>),
    JinjaExpression(JinjaExpression),
}

/// The mathematical value of an [`Expression`].
pub enum ExpressionModel {
    Identifier(IdentifierModel),
    Bool(bool),
    Numeric(Seq<char>),
    String(Seq<char>),
    RawString(Seq<char>),
    List(Seq<ExpressionModel>),
    MapOf(Seq<(ExpressionModel, ExpressionModel)>),
    JinjaExpression(Seq<char>),
}

impl Expression {
    /// The mathematical value of this expression.
    pub open spec fn model(self) -> ExpressionModel
        decreases self,
    {
        match self {
            Expression::Identifier(id) => ExpressionModel::Identifier(id@),
            Expression::Bool(b) => ExpressionModel::Bool(b),
            Expression::Numeric(text) => ExpressionModel::Numeric(text@),
            Expression::String(s) => ExpressionModel::String(s@),
            Expression::RawString(s) => ExpressionModel::RawString(s@),
            Expression::List(items) => ExpressionModel::List(expressions_model(items@)),
            Expression::MapOf(pairs) => ExpressionModel::MapOf(expression_pairs_model(pairs@)),
            Expression::JinjaExpression(j) => ExpressionModel::JinjaExpression(j.0@),
        }
    }
}

/// The mathematical values of a sequence of expressions.
pub open spec fn expressions_model(items: Seq<Expression>) -> Seq<ExpressionModel>
    decreases items,
{
    Seq::new(
        items.len(),
        |i: int|
            if 0 <= i < items.len() {
                items[i].model()
            } else {
                ExpressionModel::Bool(false)
            },
    )
}

/// The mathematical values of a sequence of pairs of expressions.
pub open spec fn expression_pairs_model(pairs: Seq<(Expression, Expression)>) -> Seq<
    (ExpressionModel, ExpressionModel),
>
    decreases pairs,
{
    Seq::new(
        pairs.len(),
        |i: int|
            if 0 <= i < pairs.len() {
                (pairs[i].0.model(), pairs[i].1.model())
            } else {
                (ExpressionModel::Bool(false), ExpressionModel::Bool(false))
            },
    )
}

impl View for Expression {
    type V = ExpressionModel;

    open spec fn view(&self) -> ExpressionModel {
        self.model()
    }
}

impl Clone for Identifier {
    fn clone(&self) -> (r: Self)
        ensures
            r@ == self@,
    {
        match self {
            Identifier::ENV(name) => Identifier::ENV(name.clone()),
            Identifier::Ref(path) => Identifier::Ref(clone_strings(path)),
            Identifier::Local(name) => Identifier::Local(name.clone()),
            Identifier::Primitive(t) => Identifier::Primitive(*t),
        }
    }
}

/// A copy of a list of expressions.
fn clone_expressions(items: &Vec<Expression>) -> (r: Vec<Expression>)
    ensures
        expressions_model(r@) == expressions_model(items@),
    decreases items,
{
    let mut out: Vec<Expression> = Vec::new();
    let mut i: usize = 0;
    while i < items.len()
        invariant
            i <= items.len(),
            out@.len() == i,
            forall|j: int| 0 <= j < i ==> (#[trigger] out@[j])@ == items@[j]@,
        decreases items.len() - i,
    {
        out.push(clone_expression(&items[i]));
        i += 1;
    }
    assert(expressions_model(out@) =~= expressions_model(items@));
    out
}

/// A copy of a list of pairs of expressions.
fn clone_expression_pairs(pairs: &Vec<(Expression, Expression)>) -> (r: Vec<
    (Expression, Expression),
>)
    ensures
        expression_pairs_model(r@) == expression_pairs_model(pairs@),
    decreases pairs,
{
    let mut out: Vec<(Expression, Expression)> = Vec::new();
    let mut i: usize = 0;
    while i < pairs.len()
        invariant
            i <= pairs.len(),
            out@.len() == i,
            forall|j: int|
                0 <= j < i ==> (#[trigger] out@[j]).0@ == pairs@[j].0@ && out@[j].1@
                    == pairs@[j].1@,
        decreases pairs.len() - i,
    {
        let pair = &pairs[i];
        out.push((clone_expression(&pair.0), clone_expression(&pair.1)));
        i += 1;
    }
    assert(expression_pairs_model(out@) =~= expression_pairs_model(pairs@));
    out
}

/// A copy of an expression.
fn clone_expression(e: &Expression) -> (r: Expression)
    ensures
        r@ == e@,
    decreases e,
{
    match e {
        Expression::Identifier(id) => Expression::Identifier(id.clone()),
        Expression::Bool(b) => Expression::Bool(*b),
        Expression::Numeric(text) => Expression::Numeric(text.clone()),
        Expression::String(s) => Expression::String(s.clone()),
        Expression::RawString(s) => Expression::RawString(s.clone()),
        Expression::List(items) => Expression::List(clone_expressions(items)),
        Expression::MapOf(pairs) => Expression::MapOf(clone_expression_pairs(pairs)),
        Expression::JinjaExpression(j) => Expression::JinjaExpression(JinjaExpression(j.0.clone())),
    }
}

impl Clone for Expression {
    fn clone(&self) -> (r: Self)
        ensures
            r@ == self@,
    {
        clone_expression(self)
    }
}

/// The mathematical values of a sequence of named expressions.
pub open spec fn options_model(options: Seq<(String, Expression)>) -> Seq<
    (Seq<char>, ExpressionModel),
> {
    Seq::new(options.len(), |i: int| (options[i].0@, options[i].1@))
}

/// The entries of a map from names to expressions, in insertion order.
pub uninterp spec fn expression_entries(m: IndexMap<String, Expression>) -> Seq<
    (Seq<char>, ExpressionModel),
>;

/// The expression that a map holds under `key`, if it holds one.
pub open spec fn attribute(m: IndexMap<String, Expression>, key: Seq<char>) -> Option<
    ExpressionModel,
> {
    match key_index(expression_entries(m), key) {
        Some(i) => Some(expression_entries(m)[i].1),
        None => None,
    }
}

/// Whether the entry at position `i` is the only one under its key.
pub open spec fn is_alone_under_its_key<V>(entries: Seq<(Seq<char>, V)>, i: int) -> bool {
    forall|j: int| 0 <= j < entries.len() && j != i ==> (#[trigger] entries[j]).0 != entries[i].0
}

/// The entry at a position, by `IndexMap::get_index`: the entry at that
/// position in insertion order, or nothing where the map is shorter. A map
/// holds each key once, so the entry is the only one under its key.
#[verifier::external_body]
pub(crate) fn entry_at(m: &IndexMap<String, Expression>, index: usize) -> (r: Option<
    (&String, &Expression),
>)
    ensures
        match r {
            Some(entry) => index < expression_entries(*m).len() && (entry.0@, entry.1@)
                == expression_entries(*m)[index as int] && is_alone_under_its_key(
                expression_entries(*m),
                index as int,
            ),
            None => index >= expression_entries(*m).len(),
        },
{
    m.get_index(index)
}

/// The value under a key, by `IndexMap::get`: the value of the entry that
/// has this key, or nothing where no entry has it.
#[verifier::external_body]
pub(crate) fn entry_under<'a>(m: &'a IndexMap<String, Expression>, key: &str) -> (r: Option<
    &'a Expression,
>)
    ensures
        match r {
            Some(e) => attribute(*m, key@) == Some(e@),
            None => attribute(*m, key@) is None,
        },
{
    m.get(key)
}

/// The number of entries of a map, by `IndexMap::len`.
#[verifier::external_body]
pub(crate) fn entries_len(m: &IndexMap<String, Expression>) -> (r: usize)
    ensures
        r == expression_entries(*m).len(),
{
    m.len()
}


/// The attributes of a node: named expressions, and where the node stands.
pub struct NodeAttributes {
    pub meta: IndexMap<String, Expression>,
    pub span: Option<Span>,
}

impl NodeAttributes {
    /// The expression under `key`, if there is one.
    pub fn get(&self, key: &str) -> (r: Option<&Expression>)
        ensures
            match r {
                Some(e) => attribute(self.meta, key@) == Some(e@),
                None => attribute(self.meta, key@) is None,
            },
    {
        entry_under(&self.meta, key)
    }
}

/// An item together with its attributes.
pub struct Node<T> {
    pub attributes: NodeAttributes,
    pub elem: T,
}

/// One member of an enum: its name.
#[derive(Debug, PartialEq, Eq)]
pub struct EnumValue(pub String);

/// An enum: its name, and its members with their documentation.
pub struct Enum {
    pub name: String,
    pub values: Vec<(Node<EnumValue>, Option<String>)>,
}

/// A field of a class or a parameter of a template.
pub struct Field {
    pub name: String,
    pub field_type: Node<FieldType>,
}

/// A class: its name, its fields in declaration order and its inputs.
pub struct Class {
    pub name: String,
    pub static_fields: Vec<Node<Field>>,
    pub inputs: Vec<(String, FieldType)>,
}

/// The client that a function runs on.
#[derive(Debug, PartialEq, Eq)]
pub enum ClientSpec {
    /// A client declared under this name.
    Named(String),
    /// A provider and a model, without a declaration.
    Shorthand(String, String),
}

/// One configuration of a function.
pub struct FunctionConfig {
    pub name: String,
    pub prompt_template: String,
    pub client: ClientSpec,
}

/// A test of a function: its name and its arguments.
pub struct TestCase {
    pub name: String,
    pub args: IndexMap<String, Expression>,
}

/// A function: its signature, its tests and its configurations.
pub struct Function {
    pub name: String,
    pub inputs: Vec<(String, FieldType)>,
    pub output: FieldType,
    pub tests: Vec<Node<TestCase>>,
    pub configs: Vec<FunctionConfig>,
}

/// An implementation of a function, as older schemas declare it.
pub struct Implementation {
    pub name: String,
    pub function_name: String,
    pub prompt: String,
    pub client: String,
}

/// A client: its provider, its retry policy and its options.
pub struct Client {
    pub name: String,
    pub provider: String,
    pub retry_policy_id: Option<String>,
    pub options: Vec<(String, Expression)>,
}

/// How long to wait between two tries.
#[derive(Debug, PartialEq, Eq)]
pub enum RetryPolicyStrategy {
    /// The same delay each time, in milliseconds.
    ConstantDelay { delay_ms: u32 },
    /// A delay in milliseconds that grows by a factor, given in its
    /// spelling, up to a longest delay.
    ExponentialBackoff { delay_ms: u32, multiplier: String, max_delay_ms: u32 },
}

/// The name of a retry policy.
#[derive(Debug, PartialEq, Eq)]
pub struct RetryPolicyId(pub String);

/// A retry policy.
pub struct RetryPolicy {
    pub name: RetryPolicyId,
    pub max_retries: u32,
    pub strategy: RetryPolicyStrategy,
}

/// A template string: its name, its parameters and its text.
pub struct TemplateString {
    pub name: String,
    pub params: Vec<Field>,
    pub content: String,
}

/// A whole schema in its intermediate representation.
pub struct IntermediateRepr {
    pub enums: Vec<Node<Enum>>,
    pub classes: Vec<Node<Class>>,
    pub functions: Vec<Node<Function>>,
    pub clients: Vec<Node<Client>>,
    pub retry_policies: Vec<Node<RetryPolicy>>,
    pub template_strings: Vec<Node<TemplateString>>,
    pub finite_recursive_cycles: Vec<Vec<String>>,
}

} // verus!
