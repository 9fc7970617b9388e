//! Evaluation of expressions.

use indexmap::IndexMap;
use vstd::prelude::*;
use vstd::string::*;
use crate::coercer::semantics::insert_entry;
use crate::field_type::{MediaKind, TypeValue};
use crate::ir::env::{env_get, EnvValues};
use crate::ir::error::{IrError, IrErrorModel};
use crate::ir::jinja::{
    expression_template, is_plain_expression, plain_expression, render_template, rendered,
};
use crate::ir::repr::{
    expression_pairs_model, expressions_model, Expression, ExpressionModel, Identifier,
    IdentifierModel,
};

use crate::text::{
    is_float_text,
    join,
    join_strings,
    parse_int,
    parse_int_text,
    spells_float,
    str_eq,
};
use crate::typed::{plain_items_model, plain_pairs_model, BamlValue, PlainModel};

verus! {

/// The name by which a primitive type is written.
pub open spec fn type_value_name(t: TypeValue) -> Seq<char> {
    match t {
        TypeValue::String => "string"@,
        TypeValue::Int => "int"@,
        TypeValue::Float => "float"@,
        TypeValue::Bool => "bool"@,
        TypeValue::Null => "null"@,
        TypeValue::Media(MediaKind::Image) => "image"@,
        TypeValue::Media(MediaKind::Audio) => "audio"@,
    }
}

impl TypeValue {
    /// The name by which this type is written.
    pub fn name(&self) -> (r: &'static str)
        ensures
            r@ == type_value_name(*self),
    {
        match self {
            TypeValue::String => "string",
            TypeValue::Int => "int",
            TypeValue::Float => "float",
            TypeValue::Bool => "bool",
            TypeValue::Null => "null",
            TypeValue::Media(MediaKind::Image) => "image",
            TypeValue::Media(MediaKind::Audio) => "audio",
        }
    }
}

/// The text of an identifier: its name, or its path joined by dots.
pub open spec fn identifier_name(id: IdentifierModel) -> Seq<char> {
    match id {
        IdentifierModel::ENV(name) => name,
        IdentifierModel::Ref(path) => join(path, "."@),
        IdentifierModel::Local(name) => name,
        IdentifierModel::Primitive(t) => type_value_name(t),
    }
}

impl Identifier {
    /// The text of this identifier: its name, or its path joined by dots.
    pub fn name(&self) -> (r: String)
        ensures
            r@ == identifier_name(self@),
    {
        match self {
            Identifier::ENV(name) => name.clone(),
            Identifier::Ref(path) => join_strings(path, "."),
            Identifier::Local(name) => name.clone(),
            Identifier::Primitive(t) => String::from_str(t.name()),
        }
    }
}

/// The boolean that an expression stands for: a boolean itself, or whether
/// the environment has the variable it names.
pub open spec fn as_bool(e: ExpressionModel, env: Seq<(Seq<char>, Seq<char>)>) -> Result<
    bool,
    IrErrorModel,
> {
    match e {
        ExpressionModel::Bool(b) => Ok(b),
        ExpressionModel::Identifier(IdentifierModel::ENV(name)) => Ok(env_get(env, name).is_some()),
        _ => Err(IrErrorModel::ExpectedBool(e)),
    }
}

/// The text that an expression stands for: a string itself, the value of the
/// environment variable it names, or the text of an identifier.
pub open spec fn as_string_value(e: ExpressionModel, env: Seq<(Seq<char>, Seq<char>)>) -> Result<
    Seq<char>,
    IrErrorModel,
> {
    match e {
        ExpressionModel::String(s) => Ok(s),
        ExpressionModel::RawString(s) => Ok(s),
        ExpressionModel::Identifier(IdentifierModel::ENV(name)) => match env_get(env, name) {
            Some(value) => Ok(value),
            None => Err(IrErrorModel::EnvVarNotFound(name)),
        },
        ExpressionModel::Identifier(id) => Ok(identifier_name(id)),
        _ => Err(IrErrorModel::ExpectedString(e)),
    }
}

/// The value that an expression stands for.
///
/// An environment variable stands for its value, a path for its text, a
/// plain name for a boolean or null where it spells one and else for its
/// text. A number is an integer where its text spells one in range, else a
/// number with a fraction or an exponent, kept in its spelling; the words
/// `inf`, `infinity` and `nan` spell such a number too. A list and a map stand for the values of their parts, in
/// order, each key of a map taken as text; the first part that fails makes
/// the whole fail. A template expression stands for its rendering; one
/// that is not plain is not rendered and fails.
pub open spec fn normalize(e: ExpressionModel, env: Seq<(Seq<char>, Seq<char>)>) -> Result<
    PlainModel,
    IrErrorModel,
>
    decreases e, 0nat,
{
    match e {
        ExpressionModel::Identifier(IdentifierModel::ENV(name)) => match env_get(env, name) {
            Some(value) => Ok(PlainModel::String(value)),
            None => Err(IrErrorModel::EnvVarNotFound(name)),
        },
        ExpressionModel::Identifier(IdentifierModel::Ref(path)) => Ok(
            PlainModel::String(join(path, "."@)),
        ),
        ExpressionModel::Identifier(IdentifierModel::Local(name)) => if name == "true"@ {
            Ok(PlainModel::Bool(true))
        } else if name == "false"@ {
            Ok(PlainModel::Bool(false))
        } else if name == "null"@ {
            Ok(PlainModel::Null)
        } else {
            Ok(PlainModel::String(name))
        },
        ExpressionModel::Identifier(IdentifierModel::Primitive(t)) => Ok(
            PlainModel::String(type_value_name(t)),
        ),
        ExpressionModel::Bool(b) => Ok(PlainModel::Bool(b)),
        ExpressionModel::MapOf(pairs) => match normalize_pairs(pairs, env, pairs.len()) {
            Ok(entries) => Ok(PlainModel::MapOf(entries)),
            Err(e) => Err(e),
        },
        ExpressionModel::List(items) => match normalize_items(items, env, items.len()) {
            Ok(values) => Ok(PlainModel::List(values)),
            Err(e) => Err(e),
        },
        ExpressionModel::RawString(s) => Ok(PlainModel::String(s)),
        ExpressionModel::String(s) => Ok(PlainModel::String(s)),
        ExpressionModel::Numeric(text) => match parse_int(text) {
            Some(n) => Ok(PlainModel::Int(n)),
            None => if is_float_text(text) {
                Ok(PlainModel::Float(text))
            } else {
                Err(IrErrorModel::InvalidNumeric(text))
            },
        },
        ExpressionModel::JinjaExpression(source) => if is_plain_expression(source) {
            match rendered(expression_template(source), env) {
                Some(text) => Ok(PlainModel::String(text)),
                None => Err(IrErrorModel::RenderFailed(source)),
            }
        } else {
            Err(IrErrorModel::RenderFailed(source))
        },
    }
}

/// The values of the first `n` expressions, or the first failure among them.
pub open spec fn normalize_items(
    items: Seq<ExpressionModel>,
    env: Seq<(Seq<char>, Seq<char>)>,
    n: nat,
) -> Result<Seq<PlainModel>, IrErrorModel>
    decreases items, n,
{
    if n == 0 || n > items.len() {
        Ok(Seq::empty())
    } else {
        match normalize_items(items, env, (n - 1) as nat) {
            Err(e) => Err(e),
            Ok(done) => match normalize(items[n - 1], env) {
                Ok(value) => Ok(done.push(value)),
                Err(e) => Err(e),
            },
        }
    }
}

/// The entries that the first `n` pairs give, each value put under the text
/// of its key, or the first failure among them.
pub open spec fn normalize_pairs(
    pairs: Seq<(ExpressionModel, ExpressionModel)>,
    env: Seq<(Seq<char>, Seq<char>)>,
    n: nat,
) -> Result<Seq<(Seq<char>, PlainModel)>, IrErrorModel>
    decreases pairs, n,
{
    if n == 0 || n > pairs.len() {
        Ok(Seq::empty())
    } else {
        match normalize_pairs(pairs, env, (n - 1) as nat) {
            Err(e) => Err(e),
            Ok(done) => match as_string_value(pairs[n - 1].0, env) {
                Err(e) => Err(e),
                Ok(key) => match normalize(pairs[n - 1].1, env) {
                    Ok(value) => Ok(insert_entry(done, key, value)),
                    Err(e) => Err(e),
                },
            },
        }
    }
}

/// The mathematical value of the result of evaluating to a plain value.
pub open spec fn plain_result_view(r: Result<BamlValue, IrError>) -> Result<
    PlainModel,
    IrErrorModel,
> {
    match r {
        Ok(v) => Ok(v@),
        Err(e) => Err(e@),
    }
}

/// The mathematical value of the result of evaluating to a text.
pub open spec fn string_result_view(r: Result<String, IrError>) -> Result<Seq<char>, IrErrorModel> {
    match r {
        Ok(s) => Ok(s@),
        Err(e) => Err(e@),
    }
}

/// The mathematical value of the result of evaluating to a boolean.
pub open spec fn bool_result_view(r: Result<bool, IrError>) -> Result<bool, IrErrorModel> {
    match r {
        Ok(b) => Ok(b),
        Err(e) => Err(e@),
    }
}

/// The entries of a map from names to plain values, in insertion order.
pub uninterp spec fn plain_entries(m: IndexMap<String, BamlValue>) -> Seq<(Seq<char>, PlainModel)>;

/// An empty map, by `IndexMap::new`.
#[verifier::external_body]
fn plain_new() -> (r: IndexMap<String, BamlValue>)
    ensures
        plain_entries(r) == Seq::<(Seq<char>, PlainModel)>::empty(),
{
    IndexMap::new()
}

/// Puts a value under a key, by `IndexMap::insert`: where the map has the
/// key, the value takes the place of the one that was there and the entry
/// keeps its position; where it has not, the entry goes to the end.
#[verifier::external_body]
fn plain_insert(m: &mut IndexMap<String, BamlValue>, key: String, value: BamlValue)
    ensures
        plain_entries(*final(m)) == insert_entry(plain_entries(*old(m)), key@, value@),
{
    m.insert(key, value);
}

/// The entries of a map as a list, by `IndexMap::into_iter`: every entry, in
/// insertion order.
#[verifier::external_body]
fn plain_into_pairs(m: IndexMap<String, BamlValue>) -> (r: Vec<(String, BamlValue)>)
    ensures
        plain_pairs_model(r@) == plain_entries(m),
{
    m.into_iter().collect()
}

impl Expression {
    /// The boolean that this expression stands for: a boolean itself, or
    /// whether the environment has the variable it names. Any other
    /// expression fails.
    pub fn as_bool(&self, env_values: &EnvValues) -> (r: Result<bool, IrError>)
        ensures
            bool_result_view(r) == as_bool(self@, env_values@),
    {
        match self {
            Expression::Bool(b) => Ok(*b),
            Expression::Identifier(Identifier::ENV(name)) => Ok(
                env_values.contains_key(name.as_str()),
            ),
            _ => Err(IrError::ExpectedBool(self.clone())),
        }
    }

    /// The text that this expression stands for: a string itself, the value
    /// of the environment variable it names, which must be there, or the
    /// text of an identifier. Any other expression fails.
    pub fn as_string_value(&self, env_values: &EnvValues) -> (r: Result<String, IrError>)
        ensures
            string_result_view(r) == as_string_value(self@, env_values@),
    {
        match self {
            Expression::String(s) => Ok(s.clone()),
            Expression::RawString(s) => Ok(s.clone()),
            Expression::Identifier(Identifier::ENV(name)) => match env_values.get(name.as_str()) {
                Some(value) => Ok(value.clone()),
                None => Err(IrError::EnvVarNotFound(name.clone())),
            },
            Expression::Identifier(id) => Ok(id.name()),
            _ => Err(IrError::ExpectedString(self.clone())),
        }
    }

    /// The value that this expression stands for in the given environment.
    pub fn normalize(&self, env_values: &EnvValues) -> (r: Result<BamlValue, IrError>)
        ensures
            plain_result_view(r) == normalize(self@, env_values@),
        decreases self,
    {
        match self {
            Expression::Identifier(id) => match id {
                Identifier::ENV(name) => match env_values.get(name.as_str()) {
                    Some(value) => Ok(BamlValue::String(value.clone())),
                    None => Err(IrError::EnvVarNotFound(name.clone())),
                },
                Identifier::Ref(path) => Ok(BamlValue::String(join_strings(path, "."))),
                Identifier::Local(name) => {
                    if str_eq(name.as_str(), "true") {
                        Ok(BamlValue::Bool(true))
                    } else if str_eq(name.as_str(), "false") {
                        Ok(BamlValue::Bool(false))
                    } else if str_eq(name.as_str(), "null") {
                        Ok(BamlValue::Null)
                    } else {
                        Ok(BamlValue::String(name.clone()))
                    }
                },
                Identifier::Primitive(t) => Ok(BamlValue::String(String::from_str(t.name()))),
            },
            Expression::Bool(b) => Ok(BamlValue::Bool(*b)),
            Expression::MapOf(pairs) => {
                let mut entries = plain_new();
                let mut i: usize = 0;
                let ghost models = expression_pairs_model(pairs@);
                while i < pairs.len()
                    invariant
                        i <= pairs.len(),
                        self matches Expression::MapOf(own) && own == pairs,
                        models == expression_pairs_model(pairs@),
                        Ok::<Seq<(Seq<char>, PlainModel)>, IrErrorModel>(plain_entries(entries))
                            == normalize_pairs(models, env_values@, i as nat),
                    decreases pairs.len() - i,
                {
                    let pair = &pairs[i];
                    assert(models[i as int] == (pair.0@, pair.1@));
                    let key = match pair.0.as_string_value(env_values) {
                        Ok(key) => key,
                        Err(e) => {
                            proof {
                                lemma_pairs_failure_stays(
                                    models,
                                    env_values@,
                                    (i + 1) as nat,
                                    pairs.len() as nat,
                                );
                            }
                            return Err(e);
                        },
                    };
                    let value = match pair.1.normalize(env_values) {
                        Ok(value) => value,
                        Err(e) => {
                            proof {
                                lemma_pairs_failure_stays(
                                    models,
                                    env_values@,
                                    (i + 1) as nat,
                                    pairs.len() as nat,
                                );
                            }
                            return Err(e);
                        },
                    };
                    plain_insert(&mut entries, key, value);
                    i += 1;
                }
                Ok(BamlValue::MapOf(plain_into_pairs(entries)))
            },
            Expression::List(items) => {
                let mut values: Vec<BamlValue> = Vec::new();
                let mut i: usize = 0;
                let ghost models = expressions_model(items@);
                assert(plain_items_model(values@) =~= Seq::empty());
                while i < items.len()
                    invariant
                        i <= items.len(),
                        self matches Expression::List(own) && own == items,
                        models == expressions_model(items@),
                        Ok::<Seq<PlainModel>, IrErrorModel>(plain_items_model(values@))
                            == normalize_items(models, env_values@, i as nat),
                    decreases items.len() - i,
                {
                    assert(models[i as int] == items@[i as int]@);
                    match items[i].normalize(env_values) {
                        Ok(value) => {
                            let ghost before = values@;
                            values.push(value);
                            assert(plain_items_model(values@) =~= plain_items_model(before).push(
                                value@,
                            ));
                        },
                        Err(e) => {
                            proof {
                                lemma_items_failure_stays(
                                    models,
                                    env_values@,
                                    (i + 1) as nat,
                                    items.len() as nat,
                                );
                            }
                            return Err(e);
                        },
                    }
                    i += 1;
                }
                Ok(BamlValue::List(values))
            },
            Expression::RawString(s) => Ok(BamlValue::String(s.clone())),
            Expression::String(s) => Ok(BamlValue::String(s.clone())),
            Expression::Numeric(text) => match parse_int_text(text.as_str()) {
                Some(n) => Ok(BamlValue::Int(n)),
                None => {
                    if spells_float(text.as_str()) {
                        Ok(BamlValue::Float(text.clone()))
                    } else {
                        Err(IrError::InvalidNumeric(text.clone()))
                    }
                },
            },
            Expression::JinjaExpression(source) => {
                if !plain_expression(source.0.as_str()) {
                    return Err(IrError::RenderFailed(source.0.clone()));
                }
                let mut template = String::from_str("{{ ");
                template.append(source.0.as_str());
                template.append(" }}");
                assert(template@ == expression_template(source.0@));
                match render_template(template.as_str(), env_values.pairs()) {
                    Ok(text) => Ok(BamlValue::String(text)),
                    Err(_) => Err(IrError::RenderFailed(source.0.clone())),
                }
            },
        }
    }
}

/// Once an item has failed, the failure is that of every longer prefix.
pub proof fn lemma_items_failure_stays(
    items: Seq<ExpressionModel>,
    env: Seq<(Seq<char>, Seq<char>)>,
    n: nat,
    m: nat,
)
    requires
        n <= m <= items.len(),
        normalize_items(items, env, n) is Err,
    ensures
        normalize_items(items, env, m) == normalize_items(items, env, n),
    decreases m - n,
{
    if n < m {
        lemma_items_failure_stays(items, env, n, (m - 1) as nat);
    }
}

/// Once a pair has failed, the failure is that of every longer prefix.
pub proof fn lemma_pairs_failure_stays(
    pairs: Seq<(ExpressionModel, ExpressionModel)>,
    env: Seq<(Seq<char>, Seq<char>)>,
    n: nat,
    m: nat,
)
    requires
        n <= m <= pairs.len(),
        normalize_pairs(pairs, env, n) is Err,
    ensures
        normalize_pairs(pairs, env, m) == normalize_pairs(pairs, env, n),
    decreases m - n,
{
    if n < m {
        lemma_pairs_failure_stays(pairs, env, n, (m - 1) as nat);
    }
}

} // verus!
