//! Walkers: an item of the intermediate representation together with the
//! representation it belongs to.

use indexmap::IndexMap;
use vstd::prelude::*;
use vstd::string::*;
use crate::field_type::FieldType;
use crate::coercer::semantics::insert_entry;
use crate::ir::env::EnvValues;
use crate::ir::env_vars::{client_env_vars, required_env_vars_of};
use crate::ir::expression::{bool_result_view, plain_result_view};
use crate::ir::repr::{entries_len, entry_at, expression_entries, options_model};
use crate::typed::BamlValue;
use crate::ir::error::{IrError, IrErrorModel, ItemKind};
use crate::ir::expression::{as_bool, as_string_value, normalize};
use crate::ir::repr;
use crate::ir::repr::{attribute, Expression, ExpressionModel, IntermediateRepr, Node};
use crate::lookup::{first_from, first_index, lemma_key_index_none};
use crate::span::Span;
use crate::text::{str_eq, strings_view};
use crate::typed::PlainModel;

verus! {

/// An enum with its attributes.
pub type Enum = Node<repr::Enum>;

/// An enum member with its attributes.
pub type EnumValue = Node<repr::EnumValue>;

/// A class with its attributes.
pub type Class = Node<repr::Class>;

/// A field with its attributes.
pub type Field = Node<repr::Field>;

/// A function with its attributes.
pub type FunctionNode = Node<repr::Function>;

/// An implementation with its attributes.
pub type Impl = Node<repr::Implementation>;

/// A client with its attributes.
pub type Client = Node<repr::Client>;

/// A retry policy with its attributes.
pub type RetryPolicy = Node<repr::RetryPolicy>;

/// A template string with its attributes.
pub type TemplateString = Node<repr::TemplateString>;

/// A test case with its attributes.
pub type TestCase = Node<repr::TestCase>;

/// An item of an intermediate representation, with the representation.
pub struct Walker<'a, I> {
    pub db: &'a IntermediateRepr,
    pub item: I,
}

/// The text that an attribute stands for, where the node has the attribute.
pub open spec fn attribute_text(
    meta: IndexMap<String, Expression>,
    key: Seq<char>,
    env: Seq<(Seq<char>, Seq<char>)>,
) -> Result<Option<Seq<char>>, IrErrorModel> {
    match attribute(meta, key) {
        Some(e) => match as_string_value(e, env) {
            Ok(text) => Ok(Some(text)),
            Err(e) => Err(e),
        },
        None => Ok(None),
    }
}

/// The mathematical value of the result of reading an optional text.
pub open spec fn text_result_view(r: Result<Option<String>, IrError>) -> Result<
    Option<Seq<char>>,
    IrErrorModel,
> {
    match r {
        Ok(Some(s)) => Ok(Some(s@)),
        Ok(None) => Ok(None),
        Err(e) => Err(e@),
    }
}

/// Reads the attribute under `key` as text, where the node has it.
fn read_text(attributes: &repr::NodeAttributes, key: &str, env_values: &EnvValues) -> (r: Result<
    Option<String>,
    IrError,
>)
    ensures
        text_result_view(r) == attribute_text(attributes.meta, key@, env_values@),
{
    match attributes.get(key) {
        Some(e) => match e.as_string_value(env_values) {
            Ok(text) => Ok(Some(text)),
            Err(e) => Err(e),
        },
        None => Ok(None),
    }
}

/// Whether `r` is the span that a node has, or nothing where it has none.
pub open spec fn is_span_of(r: Option<&Span>, span: Option<Span>) -> bool {
    match (r, span) {
        (Some(a), Some(b)) => *a == b,
        (None, None) => true,
        _ => false,
    }
}

/// The position of the first member of this name, if there is one.
pub open spec fn value_position(values: Seq<(EnumValue, Option<String>)>, name: Seq<char>) -> Option<
    int,
> {
    first_index(values, |v: (EnumValue, Option<String>)| v.0.elem.0@ == name)
}

/// The position of the first field of this name, if there is one.
pub open spec fn field_position(fields: Seq<Field>, name: Seq<char>) -> Option<int> {
    first_index(fields, |f: Field| f.elem.name@ == name)
}

impl<'a> Walker<'a, &'a Enum> {
    /// The enum's name.
    pub fn name(&self) -> (r: &'a str)
        ensures
            r@ == self.item.elem.name@,
    {
        self.item.elem.name.as_str()
    }

    /// The enum's alias: the text of its `alias` attribute, if it has one.
    pub fn alias(&self, env_values: &EnvValues) -> (r: Result<Option<String>, IrError>)
        ensures
            text_result_view(r) == attribute_text(
                self.item.attributes.meta,
                "alias"@,
                env_values@,
            ),
    {
        read_text(&self.item.attributes, "alias", env_values)
    }

    /// The enum's members, in declaration order.
    pub fn walk_values(&self) -> (r: Vec<Walker<'a, &'a EnumValue>>)
        ensures
            r@.len() == self.item.elem.values@.len(),
            forall|i: int|
                0 <= i < r@.len() ==> (#[trigger] r@[i]).item == &self.item.elem.values@[i].0
                    && r@[i].db == self.db,
    {
        let mut out: Vec<Walker<'a, &'a EnumValue>> = Vec::new();
        let mut i: usize = 0;
        while i < self.item.elem.values.len()
            invariant
                i <= self.item.elem.values.len(),
                out@.len() == i,
                forall|j: int|
                    0 <= j < i ==> (#[trigger] out@[j]).item == &self.item.elem.values@[j].0
                        && out@[j].db == self.db,
            decreases self.item.elem.values.len() - i,
        {
            out.push(Walker { db: self.db, item: &self.item.elem.values[i].0 });
            i += 1;
        }
        out
    }

    /// The first member of this name, if there is one.
    pub fn find_value(&self, name: &str) -> (r: Option<Walker<'a, &'a EnumValue>>)
        ensures
            match r {
                Some(w) => w.db == self.db && value_position(self.item.elem.values@, name@)
                    is Some && w.item == &self.item.elem.values@[value_position(
                    self.item.elem.values@,
                    name@,
                ).unwrap()].0,
                None => value_position(self.item.elem.values@, name@) is None,
            },
    {
        let ghost wanted = |v: (EnumValue, Option<String>)| v.0.elem.0@ == name@;
        let mut i: usize = 0;
        while i < self.item.elem.values.len()
            invariant
                i <= self.item.elem.values.len(),
                wanted == (|v: (EnumValue, Option<String>)| v.0.elem.0@ == name@),
                first_index(self.item.elem.values@, wanted) == first_from(
                    self.item.elem.values@,
                    wanted,
                    i as int,
                ),
            decreases self.item.elem.values.len() - i,
        {
            if str_eq(self.item.elem.values[i].0.elem.0.as_str(), name) {
                return Some(Walker { db: self.db, item: &self.item.elem.values[i].0 });
            }
            i += 1;
        }
        None
    }

    /// The enum itself.
    pub fn elem(&self) -> (r: &'a repr::Enum)
        ensures
            r == &self.item.elem,
    {
        &self.item.elem
    }

    /// Where the enum stands in its source, if that is known.
    pub fn span(&self) -> (r: Option<&'a Span>)
        ensures
            is_span_of(r, self.item.attributes.span),
    {
        self.item.attributes.span.as_ref()
    }
}

impl<'a> Walker<'a, &'a EnumValue> {
    /// Whether the member is skipped: what its `skip` attribute stands for
    /// as a boolean, and not skipped where it has none.
    pub fn skip(&self, env_values: &EnvValues) -> (r: Result<bool, IrError>)
        ensures
            bool_result_view(r) == match attribute(
                self.item.attributes.meta,
                "skip"@,
            ) {
                Some(e) => as_bool(e, env_values@),
                None => Ok(false),
            },
    {
        match self.item.attributes.get("skip") {
            Some(e) => e.as_bool(env_values),
            None => Ok(false),
        }
    }

    /// The member's name.
    pub fn name(&self) -> (r: &'a str)
        ensures
            r@ == self.item.elem.0@,
    {
        self.item.elem.0.as_str()
    }

    /// The member's alias: the text of its `alias` attribute, if it has one.
    pub fn alias(&self, env_values: &EnvValues) -> (r: Result<Option<String>, IrError>)
        ensures
            text_result_view(r) == attribute_text(
                self.item.attributes.meta,
                "alias"@,
                env_values@,
            ),
    {
        read_text(&self.item.attributes, "alias", env_values)
    }

    /// The member's description: the text of its `description` attribute, if
    /// it has one.
    pub fn description(&self, env_values: &EnvValues) -> (r: Result<Option<String>, IrError>)
        ensures
            text_result_view(r) == attribute_text(
                self.item.attributes.meta,
                "description"@,
                env_values@,
            ),
    {
        read_text(&self.item.attributes, "description", env_values)
    }
}

impl<'a> Walker<'a, (&'a FunctionNode, &'a Impl)> {
    /// The function that this implementation belongs to.
    pub fn function(&self) -> (r: Walker<'a, &'a FunctionNode>)
        ensures
            r.db == self.db,
            r.item == self.item.0,
    {
        Walker { db: self.db, item: self.item.0 }
    }

    /// The implementation itself.
    pub fn elem(&self) -> (r: &'a repr::Implementation)
        ensures
            r == &self.item.1.elem,
    {
        &self.item.1.elem
    }
}

impl<'a> Walker<'a, &'a Class> {
    /// The class's name.
    pub fn name(&self) -> (r: &'a str)
        ensures
            r@ == self.item.elem.name@,
    {
        self.item.elem.name.as_str()
    }

    /// The class's alias: the text of its `alias` attribute, if it has one.
    pub fn alias(&self, env_values: &EnvValues) -> (r: Result<Option<String>, IrError>)
        ensures
            text_result_view(r) == attribute_text(
                self.item.attributes.meta,
                "alias"@,
                env_values@,
            ),
    {
        read_text(&self.item.attributes, "alias", env_values)
    }

    /// The class's fields, in declaration order.
    pub fn walk_fields(&self) -> (r: Vec<Walker<'a, &'a Field>>)
        ensures
            r@.len() == self.item.elem.static_fields@.len(),
            forall|i: int|
                0 <= i < r@.len() ==> (#[trigger] r@[i]).item == &self.item.elem.static_fields@[i]
                    && r@[i].db == self.db,
    {
        let mut out: Vec<Walker<'a, &'a Field>> = Vec::new();
        let mut i: usize = 0;
        while i < self.item.elem.static_fields.len()
            invariant
                i <= self.item.elem.static_fields.len(),
                out@.len() == i,
                forall|j: int|
                    0 <= j < i ==> (#[trigger] out@[j]).item == &self.item.elem.static_fields@[j]
                        && out@[j].db == self.db,
            decreases self.item.elem.static_fields.len() - i,
        {
            out.push(Walker { db: self.db, item: &self.item.elem.static_fields[i] });
            i += 1;
        }
        out
    }

    /// The first field of this name, if there is one.
    pub fn find_field(&self, name: &str) -> (r: Option<Walker<'a, &'a Field>>)
        ensures
            match r {
                Some(w) => w.db == self.db && field_position(self.item.elem.static_fields@, name@)
                    is Some && w.item == &self.item.elem.static_fields@[field_position(
                    self.item.elem.static_fields@,
                    name@,
                ).unwrap()],
                None => field_position(self.item.elem.static_fields@, name@) is None,
            },
    {
        let ghost wanted = |f: Field| f.elem.name@ == name@;
        let mut i: usize = 0;
        while i < self.item.elem.static_fields.len()
            invariant
                i <= self.item.elem.static_fields.len(),
                wanted == (|f: Field| f.elem.name@ == name@),
                first_index(self.item.elem.static_fields@, wanted) == first_from(
                    self.item.elem.static_fields@,
                    wanted,
                    i as int,
                ),
            decreases self.item.elem.static_fields.len() - i,
        {
            if str_eq(self.item.elem.static_fields[i].elem.name.as_str(), name) {
                return Some(Walker { db: self.db, item: &self.item.elem.static_fields[i] });
            }
            i += 1;
        }
        None
    }

    /// The class itself.
    pub fn elem(&self) -> (r: &'a repr::Class)
        ensures
            r == &self.item.elem,
    {
        &self.item.elem
    }

    /// Where the class stands in its source, if that is known.
    pub fn span(&self) -> (r: Option<&'a Span>)
        ensures
            is_span_of(r, self.item.attributes.span),
    {
        self.item.attributes.span.as_ref()
    }

    /// The class's inputs.
    pub fn inputs(&self) -> (r: &'a Vec<(String, FieldType)>)
        ensures
            r == &self.item.elem.inputs,
    {
        &self.item.elem.inputs
    }
}

impl<'a> Walker<'a, &'a RetryPolicy> {
    /// The policy's name.
    pub fn name(&self) -> (r: &'a str)
        ensures
            r@ == self.item.elem.name.0@,
    {
        self.item.elem.name.0.as_str()
    }

    /// The policy itself.
    pub fn elem(&self) -> (r: &'a repr::RetryPolicy)
        ensures
            r == &self.item.elem,
    {
        &self.item.elem
    }

    /// How often a failed call is tried again.
    pub fn max_retries(&self) -> (r: u32)
        ensures
            r == self.item.elem.max_retries,
    {
        self.item.elem.max_retries
    }

    /// How long to wait between two tries.
    pub fn strategy(&self) -> (r: &'a repr::RetryPolicyStrategy)
        ensures
            r == &self.item.elem.strategy,
    {
        &self.item.elem.strategy
    }

    /// Where the policy stands in its source, if that is known.
    pub fn span(&self) -> (r: Option<&'a Span>)
        ensures
            is_span_of(r, self.item.attributes.span),
    {
        self.item.attributes.span.as_ref()
    }
}

impl<'a> Walker<'a, &'a TemplateString> {
    /// The template itself.
    pub fn elem(&self) -> (r: &'a repr::TemplateString)
        ensures
            r == &self.item.elem,
    {
        &self.item.elem
    }

    /// The template's name.
    pub fn name(&self) -> (r: &'a str)
        ensures
            r@ == self.item.elem.name@,
    {
        self.item.elem.name.as_str()
    }

    /// The template's parameters.
    pub fn inputs(&self) -> (r: &'a Vec<repr::Field>)
        ensures
            r == &self.item.elem.params,
    {
        &self.item.elem.params
    }

    /// The template's text.
    pub fn template(&self) -> (r: &'a str)
        ensures
            r@ == self.item.elem.content@,
    {
        self.item.elem.content.as_str()
    }

    /// Where the template stands in its source, if that is known.
    pub fn span(&self) -> (r: Option<&'a Span>)
        ensures
            is_span_of(r, self.item.attributes.span),
    {
        self.item.attributes.span.as_ref()
    }
}

/// The text that a field's description stands for, where the field has one:
/// the description is evaluated, and must come out as a text.
pub open spec fn description_text(
    meta: IndexMap<String, Expression>,
    env: Seq<(Seq<char>, Seq<char>)>,
) -> Result<Option<Seq<char>>, IrErrorModel> {
    match attribute(meta, "description"@) {
        Some(e) => match normalize(e, env) {
            Ok(PlainModel::String(text)) => Ok(Some(text)),
            Ok(_) => Err(IrErrorModel::NonStringValue),
            Err(e) => Err(e),
        },
        None => Ok(None),
    }
}

impl<'a> Walker<'a, &'a Field> {
    /// The field's name.
    pub fn name(&self) -> (r: &'a str)
        ensures
            r@ == self.item.elem.name@,
    {
        self.item.elem.name.as_str()
    }

    /// The field's type.
    pub fn field_type(&self) -> (r: &'a FieldType)
        ensures
            r == &self.item.elem.field_type.elem,
    {
        &self.item.elem.field_type.elem
    }

    /// The field itself.
    pub fn elem(&self) -> (r: &'a repr::Field)
        ensures
            r == &self.item.elem,
    {
        &self.item.elem
    }

    /// The field's alias: the text of its `alias` attribute, if it has one.
    pub fn alias(&self, env_values: &EnvValues) -> (r: Result<Option<String>, IrError>)
        ensures
            text_result_view(r) == attribute_text(
                self.item.attributes.meta,
                "alias"@,
                env_values@,
            ),
    {
        read_text(&self.item.attributes, "alias", env_values)
    }

    /// The field's description: what its `description` attribute evaluates
    /// to, which must be a text, if it has one.
    pub fn description(&self, env_values: &EnvValues) -> (r: Result<Option<String>, IrError>)
        ensures
            text_result_view(r) == description_text(self.item.attributes.meta, env_values@),
    {
        match self.item.attributes.get("description") {
            Some(e) => match e.normalize(env_values) {
                Ok(BamlValue::String(text)) => Ok(Some(text)),
                Ok(_) => Err(IrError::NonStringValue),
                Err(e) => Err(e),
            },
            None => Ok(None),
        }
    }

    /// Where the field stands in its source, if that is known.
    pub fn span(&self) -> (r: Option<&'a Span>)
        ensures
            is_span_of(r, self.item.attributes.span),
    {
        self.item.attributes.span.as_ref()
    }
}

/// The position of the first enum of this name, if there is one.
pub open spec fn enum_position(items: Seq<Enum>, name: Seq<char>) -> Option<int> {
    first_index(items, |c: Enum| c.elem.name@ == name)
}

/// The position of the first class of this name, if there is one.
pub open spec fn class_position(items: Seq<Class>, name: Seq<char>) -> Option<int> {
    first_index(items, |c: Class| c.elem.name@ == name)
}

/// The position of the first function of this name, if there is one.
pub open spec fn function_position(items: Seq<FunctionNode>, name: Seq<char>) -> Option<int> {
    first_index(items, |c: FunctionNode| c.elem.name@ == name)
}

/// The position of the first client of this name, if there is one.
pub open spec fn client_position(items: Seq<Client>, name: Seq<char>) -> Option<int> {
    first_index(items, |c: Client| c.elem.name@ == name)
}

/// The position of the first retry policy of this name, if there is one.
pub open spec fn retry_policy_position(items: Seq<RetryPolicy>, name: Seq<char>) -> Option<int> {
    first_index(items, |c: RetryPolicy| c.elem.name.0@ == name)
}

/// The position of the first template string of this name, if there is one.
pub open spec fn template_string_position(items: Seq<TemplateString>, name: Seq<char>) -> Option<int> {
    first_index(items, |c: TemplateString| c.elem.name@ == name)
}

impl IntermediateRepr {
    /// A representation without any item.
    pub fn new() -> (r: IntermediateRepr)
        ensures
            r.enums@.len() == 0,
            r.classes@.len() == 0,
            r.functions@.len() == 0,
            r.clients@.len() == 0,
            r.retry_policies@.len() == 0,
            r.template_strings@.len() == 0,
            r.finite_recursive_cycles@.len() == 0,
    {
        IntermediateRepr {
            enums: Vec::new(),
            classes: Vec::new(),
            functions: Vec::new(),
            clients: Vec::new(),
            retry_policies: Vec::new(),
            template_strings: Vec::new(),
            finite_recursive_cycles: Vec::new(),
        }
    }

    /// The groups of classes that refer to each other in a cycle.
    pub fn finite_recursive_cycles(&self) -> (r: &Vec<Vec<String>>)
        ensures
            r == &self.finite_recursive_cycles,
    {
        &self.finite_recursive_cycles
    }

    /// The first enum of this name. Fails where there is none.
    pub fn find_enum<'a>(&'a self, name: &str) -> (r: Result<Walker<'a, &'a Enum>, IrError>)
        ensures
            match r {
                Ok(w) => w.db == self && enum_position(self.enums@, name@) is Some && w.item
                    == &self.enums@[enum_position(self.enums@, name@).unwrap()],
                Err(e) => enum_position(self.enums@, name@) is None && e@
                    == IrErrorModel::NotFound(ItemKind::Enum, name@),
            },
    {
        let ghost wanted = |c: Enum| c.elem.name@ == name@;
        let mut i: usize = 0;
        while i < self.enums.len()
            invariant
                i <= self.enums.len(),
                wanted == (|c: Enum| c.elem.name@ == name@),
                first_index(self.enums@, wanted) == first_from(self.enums@, wanted, i as int),
            decreases self.enums.len() - i,
        {
            if str_eq(self.enums[i].elem.name.as_str(), name) {
                return Ok(Walker { db: self, item: &self.enums[i] });
            }
            i += 1;
        }
        Err(IrError::NotFound(ItemKind::Enum, String::from_str(name)))
    }

    /// The enums, in declaration order.
    pub fn walk_enums<'a>(&'a self) -> (r: Vec<Walker<'a, &'a Enum>>)
        ensures
            r@.len() == self.enums@.len(),
            forall|i: int|
                0 <= i < r@.len() ==> (#[trigger] r@[i]).item == &self.enums@[i] && r@[i].db
                    == self,
    {
        let mut out: Vec<Walker<'a, &'a Enum>> = Vec::new();
        let mut i: usize = 0;
        while i < self.enums.len()
            invariant
                i <= self.enums.len(),
                out@.len() == i,
                forall|j: int|
                    0 <= j < i ==> (#[trigger] out@[j]).item == &self.enums@[j] && out@[j].db
                        == self,
            decreases self.enums.len() - i,
        {
            out.push(Walker { db: self, item: &self.enums[i] });
            i += 1;
        }
        out
    }

    /// The first class of this name. Fails where there is none.
    pub fn find_class<'a>(&'a self, name: &str) -> (r: Result<Walker<'a, &'a Class>, IrError>)
        ensures
            match r {
                Ok(w) => w.db == self && class_position(self.classes@, name@) is Some && w.item
                    == &self.classes@[class_position(self.classes@, name@).unwrap()],
                Err(e) => class_position(self.classes@, name@) is None && e@
                    == IrErrorModel::NotFound(ItemKind::Class, name@),
            },
    {
        let ghost wanted = |c: Class| c.elem.name@ == name@;
        let mut i: usize = 0;
        while i < self.classes.len()
            invariant
                i <= self.classes.len(),
                wanted == (|c: Class| c.elem.name@ == name@),
                first_index(self.classes@, wanted) == first_from(self.classes@, wanted, i as int),
            decreases self.classes.len() - i,
        {
            if str_eq(self.classes[i].elem.name.as_str(), name) {
                return Ok(Walker { db: self, item: &self.classes[i] });
            }
            i += 1;
        }
        Err(IrError::NotFound(ItemKind::Class, String::from_str(name)))
    }

    /// The classs, in declaration order.
    pub fn walk_classes<'a>(&'a self) -> (r: Vec<Walker<'a, &'a Class>>)
        ensures
            r@.len() == self.classes@.len(),
            forall|i: int|
                0 <= i < r@.len() ==> (#[trigger] r@[i]).item == &self.classes@[i] && r@[i].db
                    == self,
    {
        let mut out: Vec<Walker<'a, &'a Class>> = Vec::new();
        let mut i: usize = 0;
        while i < self.classes.len()
            invariant
                i <= self.classes.len(),
                out@.len() == i,
                forall|j: int|
                    0 <= j < i ==> (#[trigger] out@[j]).item == &self.classes@[j] && out@[j].db
                        == self,
            decreases self.classes.len() - i,
        {
            out.push(Walker { db: self, item: &self.classes[i] });
            i += 1;
        }
        out
    }

    /// The first function of this name. Fails where there is none.
    pub fn find_function<'a>(&'a self, name: &str) -> (r: Result<Walker<'a, &'a FunctionNode>, IrError>)
        ensures
            match r {
                Ok(w) => w.db == self && function_position(self.functions@, name@) is Some && w.item
                    == &self.functions@[function_position(self.functions@, name@).unwrap()],
                Err(e) => function_position(self.functions@, name@) is None && e@
                    == IrErrorModel::NotFound(ItemKind::Function, name@),
            },
    {
        let ghost wanted = |c: FunctionNode| c.elem.name@ == name@;
        let mut i: usize = 0;
        while i < self.functions.len()
            invariant
                i <= self.functions.len(),
                wanted == (|c: FunctionNode| c.elem.name@ == name@),
                first_index(self.functions@, wanted) == first_from(self.functions@, wanted, i as int),
            decreases self.functions.len() - i,
        {
            if str_eq(self.functions[i].elem.name.as_str(), name) {
                return Ok(Walker { db: self, item: &self.functions[i] });
            }
            i += 1;
        }
        Err(IrError::NotFound(ItemKind::Function, String::from_str(name)))
    }

    /// The functions, in declaration order.
    pub fn walk_functions<'a>(&'a self) -> (r: Vec<Walker<'a, &'a FunctionNode>>)
        ensures
            r@.len() == self.functions@.len(),
            forall|i: int|
                0 <= i < r@.len() ==> (#[trigger] r@[i]).item == &self.functions@[i] && r@[i].db
                    == self,
    {
        let mut out: Vec<Walker<'a, &'a FunctionNode>> = Vec::new();
        let mut i: usize = 0;
        while i < self.functions.len()
            invariant
                i <= self.functions.len(),
                out@.len() == i,
                forall|j: int|
                    0 <= j < i ==> (#[trigger] out@[j]).item == &self.functions@[j] && out@[j].db
                        == self,
            decreases self.functions.len() - i,
        {
            out.push(Walker { db: self, item: &self.functions[i] });
            i += 1;
        }
        out
    }

    /// The first client of this name. Fails where there is none.
    pub fn find_client<'a>(&'a self, name: &str) -> (r: Result<Walker<'a, &'a Client>, IrError>)
        ensures
            match r {
                Ok(w) => w.db == self && client_position(self.clients@, name@) is Some && w.item
                    == &self.clients@[client_position(self.clients@, name@).unwrap()],
                Err(e) => client_position(self.clients@, name@) is None && e@
                    == IrErrorModel::NotFound(ItemKind::Client, name@),
            },
    {
        let ghost wanted = |c: Client| c.elem.name@ == name@;
        let mut i: usize = 0;
        while i < self.clients.len()
            invariant
                i <= self.clients.len(),
                wanted == (|c: Client| c.elem.name@ == name@),
                first_index(self.clients@, wanted) == first_from(self.clients@, wanted, i as int),
            decreases self.clients.len() - i,
        {
            if str_eq(self.clients[i].elem.name.as_str(), name) {
                return Ok(Walker { db: self, item: &self.clients[i] });
            }
            i += 1;
        }
        Err(IrError::NotFound(ItemKind::Client, String::from_str(name)))
    }

    /// The clients, in declaration order.
    pub fn walk_clients<'a>(&'a self) -> (r: Vec<Walker<'a, &'a Client>>)
        ensures
            r@.len() == self.clients@.len(),
            forall|i: int|
                0 <= i < r@.len() ==> (#[trigger] r@[i]).item == &self.clients@[i] && r@[i].db
                    == self,
    {
        let mut out: Vec<Walker<'a, &'a Client>> = Vec::new();
        let mut i: usize = 0;
        while i < self.clients.len()
            invariant
                i <= self.clients.len(),
                out@.len() == i,
                forall|j: int|
                    0 <= j < i ==> (#[trigger] out@[j]).item == &self.clients@[j] && out@[j].db
                        == self,
            decreases self.clients.len() - i,
        {
            out.push(Walker { db: self, item: &self.clients[i] });
            i += 1;
        }
        out
    }

    /// The first retry policy of this name. Fails where there is none.
    pub fn find_retry_policy<'a>(&'a self, name: &str) -> (r: Result<Walker<'a, &'a RetryPolicy>, IrError>)
        ensures
            match r {
                Ok(w) => w.db == self && retry_policy_position(self.retry_policies@, name@) is Some && w.item
                    == &self.retry_policies@[retry_policy_position(self.retry_policies@, name@).unwrap()],
                Err(e) => retry_policy_position(self.retry_policies@, name@) is None && e@
                    == IrErrorModel::NotFound(ItemKind::RetryPolicy, name@),
            },
    {
        let ghost wanted = |c: RetryPolicy| c.elem.name.0@ == name@;
        let mut i: usize = 0;
        while i < self.retry_policies.len()
            invariant
                i <= self.retry_policies.len(),
                wanted == (|c: RetryPolicy| c.elem.name.0@ == name@),
                first_index(self.retry_policies@, wanted) == first_from(self.retry_policies@, wanted, i as int),
            decreases self.retry_policies.len() - i,
        {
            if str_eq(self.retry_policies[i].elem.name.0.as_str(), name) {
                return Ok(Walker { db: self, item: &self.retry_policies[i] });
            }
            i += 1;
        }
        Err(IrError::NotFound(ItemKind::RetryPolicy, String::from_str(name)))
    }

    /// The retry policys, in declaration order.
    pub fn walk_retry_policies<'a>(&'a self) -> (r: Vec<Walker<'a, &'a RetryPolicy>>)
        ensures
            r@.len() == self.retry_policies@.len(),
            forall|i: int|
                0 <= i < r@.len() ==> (#[trigger] r@[i]).item == &self.retry_policies@[i] && r@[i].db
                    == self,
    {
        let mut out: Vec<Walker<'a, &'a RetryPolicy>> = Vec::new();
        let mut i: usize = 0;
        while i < self.retry_policies.len()
            invariant
                i <= self.retry_policies.len(),
                out@.len() == i,
                forall|j: int|
                    0 <= j < i ==> (#[trigger] out@[j]).item == &self.retry_policies@[j] && out@[j].db
                        == self,
            decreases self.retry_policies.len() - i,
        {
            out.push(Walker { db: self, item: &self.retry_policies[i] });
            i += 1;
        }
        out
    }

    /// The first template string of this name. Fails where there is none.
    pub fn find_template_string<'a>(&'a self, name: &str) -> (r: Result<Walker<'a, &'a TemplateString>, IrError>)
        ensures
            match r {
                Ok(w) => w.db == self && template_string_position(self.template_strings@, name@) is Some && w.item
                    == &self.template_strings@[template_string_position(self.template_strings@, name@).unwrap()],
                Err(e) => template_string_position(self.template_strings@, name@) is None && e@
                    == IrErrorModel::NotFound(ItemKind::TemplateString, name@),
            },
    {
        let ghost wanted = |c: TemplateString| c.elem.name@ == name@;
        let mut i: usize = 0;
        while i < self.template_strings.len()
            invariant
                i <= self.template_strings.len(),
                wanted == (|c: TemplateString| c.elem.name@ == name@),
                first_index(self.template_strings@, wanted) == first_from(self.template_strings@, wanted, i as int),
            decreases self.template_strings.len() - i,
        {
            if str_eq(self.template_strings[i].elem.name.as_str(), name) {
                return Ok(Walker { db: self, item: &self.template_strings[i] });
            }
            i += 1;
        }
        Err(IrError::NotFound(ItemKind::TemplateString, String::from_str(name)))
    }

    /// The template strings, in declaration order.
    pub fn walk_template_strings<'a>(&'a self) -> (r: Vec<Walker<'a, &'a TemplateString>>)
        ensures
            r@.len() == self.template_strings@.len(),
            forall|i: int|
                0 <= i < r@.len() ==> (#[trigger] r@[i]).item == &self.template_strings@[i] && r@[i].db
                    == self,
    {
        let mut out: Vec<Walker<'a, &'a TemplateString>> = Vec::new();
        let mut i: usize = 0;
        while i < self.template_strings.len()
            invariant
                i <= self.template_strings.len(),
                out@.len() == i,
                forall|j: int|
                    0 <= j < i ==> (#[trigger] out@[j]).item == &self.template_strings@[j] && out@[j].db
                        == self,
            decreases self.template_strings.len() - i,
        {
            out.push(Walker { db: self, item: &self.template_strings[i] });
            i += 1;
        }
        out
    }

}

/// The text of a client specification: the name of a named client, or the
/// provider and the model with a slash between them.
pub open spec fn client_spec_text(spec: repr::ClientSpec) -> Seq<char> {
    match spec {
        repr::ClientSpec::Named(name) => name@,
        repr::ClientSpec::Shorthand(provider, model) => provider@ + "/"@ + model@,
    }
}

impl repr::ClientSpec {
    /// The text of this specification: the name of a named client, or the
    /// provider and the model with a slash between them.
    pub fn as_str(&self) -> (r: String)
        ensures
            r@ == client_spec_text(*self),
    {
        match self {
            repr::ClientSpec::Named(name) => name.clone(),
            repr::ClientSpec::Shorthand(provider, model) => {
                let mut out = provider.clone();
                out.append("/");
                out.append(model.as_str());
                out
            },
        }
    }
}

/// The mathematical value of the result of collecting environment
/// variables: the set of the names.
pub open spec fn env_vars_view(r: Result<Vec<String>, IrError>) -> Result<
    Set<Seq<char>>,
    IrErrorModel,
> {
    match r {
        Ok(vars) => Ok(strings_view(vars@).to_set()),
        Err(e) => Err(e@),
    }
}

/// The environment variables that a function needs: those of the client of
/// its first configuration. A named client must be declared; a provider
/// given in shorthand needs all its variables. A function without a
/// configuration has no client.
pub open spec fn function_env_vars(db: IntermediateRepr, function: repr::Function) -> Result<
    Set<Seq<char>>,
    IrErrorModel,
> {
    if function.configs@.len() == 0 {
        Err(IrErrorModel::FunctionHasNoClient(function.name@))
    } else {
        match function.configs@[0].client {
            repr::ClientSpec::Named(name) => match client_position(db.clients@, name@) {
                Some(i) => Ok(
                    client_env_vars(
                        options_model(db.clients@[i].elem.options@),
                        db.clients@[i].elem.provider@,
                    ),
                ),
                None => Err(IrErrorModel::NotFound(ItemKind::Client, name@)),
            },
            repr::ClientSpec::Shorthand(provider, _) => Ok(
                client_env_vars(Seq::empty(), provider@),
            ),
        }
    }
}

impl<'a> Walker<'a, &'a FunctionNode> {
    /// The function's name.
    pub fn name(&self) -> (r: &'a str)
        ensures
            r@ == self.item.elem.name@,
    {
        self.item.elem.name.as_str()
    }

    /// Whether the function is declared in the first syntax: never.
    pub fn is_v1(&self) -> (r: bool)
        ensures
            !r,
    {
        false
    }

    /// Whether the function is declared in the second syntax: always.
    pub fn is_v2(&self) -> (r: bool)
        ensures
            r,
    {
        true
    }

    /// The text of the client of the function's first configuration, if it
    /// has a configuration.
    pub fn client_name(&self) -> (r: Option<String>)
        ensures
            match r {
                Some(name) => self.item.elem.configs@.len() > 0 && name@ == client_spec_text(
                    self.item.elem.configs@[0].client,
                ),
                None => self.item.elem.configs@.len() == 0,
            },
    {
        if self.item.elem.configs.len() > 0 {
            Some(self.item.elem.configs[0].client.as_str())
        } else {
            None
        }
    }

    /// The environment variables that the function needs, each once: those
    /// of the client of its first configuration.
    pub fn required_env_vars(&self) -> (r: Result<Vec<String>, IrError>)
        ensures
            env_vars_view(r) == function_env_vars(*self.db, self.item.elem),
            r matches Ok(vars) ==> strings_view(vars@).no_duplicates(),
    {
        if self.item.elem.configs.len() > 0 {
            match &self.item.elem.configs[0].client {
                repr::ClientSpec::Named(name) => match self.db.find_client(name.as_str()) {
                    Ok(client) => Ok(client.required_env_vars()),
                    Err(e) => Err(e),
                },
                repr::ClientSpec::Shorthand(provider, _) => {
                    let none: Vec<(String, Expression)> = Vec::new();
                    assert(options_model(none@) =~= Seq::empty());
                    Ok(required_env_vars_of(&none, provider.as_str()))
                },
            }
        } else {
            Err(IrError::FunctionHasNoClient(self.item.elem.name.clone()))
        }
    }

    /// The function's configurations, in declaration order, each with the
    /// function.
    pub fn walk_impls(&self) -> (r: Vec<Walker<'a, (&'a repr::Function, &'a repr::FunctionConfig)>>)
        ensures
            r@.len() == self.item.elem.configs@.len(),
            forall|i: int|
                0 <= i < r@.len() ==> (#[trigger] r@[i]).item.0 == &self.item.elem && r@[i].item.1
                    == &self.item.elem.configs@[i] && r@[i].db == self.db,
    {
        let mut out: Vec<Walker<'a, (&'a repr::Function, &'a repr::FunctionConfig)>> = Vec::new();
        let mut i: usize = 0;
        while i < self.item.elem.configs.len()
            invariant
                i <= self.item.elem.configs.len(),
                out@.len() == i,
                forall|j: int|
                    0 <= j < i ==> (#[trigger] out@[j]).item.0 == &self.item.elem
                        && out@[j].item.1 == &self.item.elem.configs@[j] && out@[j].db == self.db,
            decreases self.item.elem.configs.len() - i,
        {
            out.push(Walker { db: self.db, item: (&self.item.elem, &self.item.elem.configs[i]) });
            i += 1;
        }
        out
    }

    /// The function's tests, in declaration order, each with the function.
    pub fn walk_tests(&self) -> (r: Vec<Walker<'a, (&'a FunctionNode, &'a TestCase)>>)
        ensures
            r@.len() == self.item.elem.tests@.len(),
            forall|i: int|
                0 <= i < r@.len() ==> (#[trigger] r@[i]).item.0 == self.item && r@[i].item.1
                    == &self.item.elem.tests@[i] && r@[i].db == self.db,
    {
        let mut out: Vec<Walker<'a, (&'a FunctionNode, &'a TestCase)>> = Vec::new();
        let mut i: usize = 0;
        while i < self.item.elem.tests.len()
            invariant
                i <= self.item.elem.tests.len(),
                out@.len() == i,
                forall|j: int|
                    0 <= j < i ==> (#[trigger] out@[j]).item.0 == self.item && out@[j].item.1
                        == &self.item.elem.tests@[j] && out@[j].db == self.db,
            decreases self.item.elem.tests.len() - i,
        {
            out.push(Walker { db: self.db, item: (self.item, &self.item.elem.tests[i]) });
            i += 1;
        }
        out
    }

    /// The first test of this name, with the function, if there is one.
    pub fn find_test(&self, test_name: &str) -> (r: Option<
        Walker<'a, (&'a FunctionNode, &'a TestCase)>,
    >)
        ensures
            match r {
                Some(w) => w.db == self.db && w.item.0 == self.item && test_position(
                    self.item.elem.tests@,
                    test_name@,
                ) is Some && w.item.1 == &self.item.elem.tests@[test_position(
                    self.item.elem.tests@,
                    test_name@,
                ).unwrap()],
                None => test_position(self.item.elem.tests@, test_name@) is None,
            },
    {
        let ghost wanted = |t: TestCase| t.elem.name@ == test_name@;
        let mut i: usize = 0;
        while i < self.item.elem.tests.len()
            invariant
                i <= self.item.elem.tests.len(),
                wanted == (|t: TestCase| t.elem.name@ == test_name@),
                first_index(self.item.elem.tests@, wanted) == first_from(
                    self.item.elem.tests@,
                    wanted,
                    i as int,
                ),
            decreases self.item.elem.tests.len() - i,
        {
            if str_eq(self.item.elem.tests[i].elem.name.as_str(), test_name) {
                return Some(Walker { db: self.db, item: (self.item, &self.item.elem.tests[i]) });
            }
            i += 1;
        }
        None
    }

    /// The function itself.
    pub fn elem(&self) -> (r: &'a repr::Function)
        ensures
            r == &self.item.elem,
    {
        &self.item.elem
    }

    /// The type of what the function returns.
    pub fn output(&self) -> (r: &'a FieldType)
        ensures
            r == &self.item.elem.output,
    {
        &self.item.elem.output
    }

    /// The function's parameters.
    pub fn inputs(&self) -> (r: &'a Vec<(String, FieldType)>)
        ensures
            r == &self.item.elem.inputs,
    {
        &self.item.elem.inputs
    }

    /// Where the function stands in its source, if that is known.
    pub fn span(&self) -> (r: Option<&'a Span>)
        ensures
            is_span_of(r, self.item.attributes.span),
    {
        self.item.attributes.span.as_ref()
    }
}

/// The position of the first test of this name, if there is one.
pub open spec fn test_position(tests: Seq<TestCase>, name: Seq<char>) -> Option<int> {
    first_index(tests, |t: TestCase| t.elem.name@ == name)
}

impl<'a> Walker<'a, &'a Client> {
    /// The client itself.
    pub fn elem(&self) -> (r: &'a repr::Client)
        ensures
            r == &self.item.elem,
    {
        &self.item.elem
    }

    /// The client's name.
    pub fn name(&self) -> (r: &'a str)
        ensures
            r@ == self.item.elem.name@,
    {
        self.item.elem.name.as_str()
    }

    /// The name of the client's retry policy, if it has one.
    pub fn retry_policy(&self) -> (r: &'a Option<String>)
        ensures
            r == &self.item.elem.retry_policy_id,
    {
        &self.item.elem.retry_policy_id
    }

    /// Where the client stands in its source, if that is known.
    pub fn span(&self) -> (r: Option<&'a Span>)
        ensures
            is_span_of(r, self.item.attributes.span),
    {
        self.item.attributes.span.as_ref()
    }

    /// The client's options, in declaration order.
    pub fn options(&self) -> (r: &'a Vec<(String, Expression)>)
        ensures
            r == &self.item.elem.options,
    {
        &self.item.elem.options
    }

    /// The environment variables that the client needs, each once: those
    /// that its options name, and those of its provider that none of its
    /// options stands in for.
    pub fn required_env_vars(&self) -> (r: Vec<String>)
        ensures
            strings_view(r@).to_set() == client_env_vars(
                options_model(self.item.elem.options@),
                self.item.elem.provider@,
            ),
            strings_view(r@).no_duplicates(),
    {
        required_env_vars_of(&self.item.elem.options, self.item.elem.provider.as_str())
    }
}

/// The entries of a map from names to the results of evaluating arguments,
/// in insertion order.
pub uninterp spec fn param_entries(m: IndexMap<String, Result<BamlValue, IrError>>) -> Seq<
    (Seq<char>, Result<PlainModel, IrErrorModel>),
>;

/// An empty map, by `IndexMap::new`.
#[verifier::external_body]
fn params_new() -> (r: IndexMap<String, Result<BamlValue, IrError>>)
    ensures
        param_entries(r) == Seq::<(Seq<char>, Result<PlainModel, IrErrorModel>)>::empty(),
{
    IndexMap::new()
}

/// Puts a value under a key, by `IndexMap::insert`: where the map has the
/// key, the value takes the place of the one that was there and the entry
/// keeps its position; where it has not, the entry goes to the end.
#[verifier::external_body]
fn params_insert(
    m: &mut IndexMap<String, Result<BamlValue, IrError>>,
    key: String,
    value: Result<BamlValue, IrError>,
)
    ensures
        param_entries(*final(m)) == insert_entry(
            param_entries(*old(m)),
            key@,
            plain_result_view(value),
        ),
{
    m.insert(key, value);
}

/// What the first `n` arguments of a test evaluate to, each under its name.
pub open spec fn evaluated_args(
    args: Seq<(Seq<char>, ExpressionModel)>,
    env: Seq<(Seq<char>, Seq<char>)>,
    n: nat,
) -> Seq<(Seq<char>, Result<PlainModel, IrErrorModel>)>
    decreases n,
{
    if n == 0 || n > args.len() {
        Seq::empty()
    } else {
        insert_entry(
            evaluated_args(args, env, (n - 1) as nat),
            args[n - 1].0,
            normalize(args[n - 1].1, env),
        )
    }
}

impl<'a> Walker<'a, (&'a FunctionNode, &'a TestCase)> {
    /// Whether this is the test of this name of the function of this name.
    pub fn matches(&self, function_name: &str, test_name: &str) -> (r: bool)
        ensures
            r == (self.item.0.elem.name@ == function_name@ && self.item.1.elem.name@
                == test_name@),
    {
        str_eq(self.item.0.elem.name.as_str(), function_name) && str_eq(
            self.item.1.elem.name.as_str(),
            test_name,
        )
    }

    /// The full name of the test: the function's name, two colons, and the
    /// test's name.
    pub fn name(&self) -> (r: String)
        ensures
            r@ == self.item.0.elem.name@ + "::"@ + self.item.1.elem.name@,
    {
        let mut out = self.item.0.elem.name.clone();
        out.append("::");
        out.append(self.item.1.elem.name.as_str());
        out
    }

    /// The test's arguments, by name.
    pub fn args(&self) -> (r: &'a IndexMap<String, Expression>)
        ensures
            r == &self.item.1.elem.args,
    {
        &self.item.1.elem.args
    }

    /// The test itself.
    pub fn test_case(&self) -> (r: &'a repr::TestCase)
        ensures
            r == &self.item.1.elem,
    {
        &self.item.1.elem
    }

    /// Where the test stands in its source, if that is known.
    pub fn span(&self) -> (r: Option<&'a Span>)
        ensures
            is_span_of(r, self.item.1.attributes.span),
    {
        self.item.1.attributes.span.as_ref()
    }

    /// What the test's arguments evaluate to in the given environment: one
    /// entry for each argument, under the argument's name and in the order
    /// of the arguments. An argument that cannot be evaluated has its
    /// failure in its place; the call itself does not fail.
    pub fn test_case_params(&self, env_values: &EnvValues) -> (r: Result<
        IndexMap<String, Result<BamlValue, IrError>>,
        IrError,
    >)
        ensures
            r matches Ok(params) && param_entries(params) == evaluated_args(
                expression_entries(self.item.1.elem.args),
                env_values@,
                expression_entries(self.item.1.elem.args).len(),
            ) && param_entries(params).len() == expression_entries(self.item.1.elem.args).len()
                && forall|k: int|
                0 <= k < param_entries(params).len() ==> #[trigger] param_entries(params)[k] == (
                    expression_entries(self.item.1.elem.args)[k].0,
                    normalize(expression_entries(self.item.1.elem.args)[k].1, env_values@),
                ),
    {
        let args = &self.item.1.elem.args;
        let count = entries_len(args);
        let mut params = params_new();
        let mut i: usize = 0;
        while i < count
            invariant
                i <= count == expression_entries(*args).len(),
                param_entries(params) == evaluated_args(
                    expression_entries(*args),
                    env_values@,
                    i as nat,
                ),
                param_entries(params).len() == i,
                forall|k: int|
                    0 <= k < i ==> #[trigger] param_entries(params)[k] == (
                        expression_entries(*args)[k].0,
                        normalize(expression_entries(*args)[k].1, env_values@),
                    ),
            decreases count - i,
        {
            match entry_at(args, i) {
                Some((key, value)) => {
                    proof {
                        let earlier = param_entries(params);
                        assert forall|k: int| 0 <= k < earlier.len() implies (
                        #[trigger] earlier[k]).0 != key@ by {
                            assert(expression_entries(*args)[k].0 != expression_entries(
                                *args,
                            )[i as int].0);
                        }
                        lemma_key_index_none(earlier, key@);
                    }
                    params_insert(&mut params, key.clone(), value.normalize(env_values));
                },
                None => {},
            }
            i += 1;
        }
        Ok(params)
    }

    /// The function that the test belongs to.
    pub fn function(&self) -> (r: Walker<'a, &'a FunctionNode>)
        ensures
            r.db == self.db,
            r.item == self.item.0,
    {
        Walker { db: self.db, item: self.item.0 }
    }
}

} // verus!
