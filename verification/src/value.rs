//! The loosely typed value tree that comes out of a lenient parser and goes
//! into coercion.

use vstd::prelude::*;

verus! {

/// A number as it was read: an integer, or the text of a decimal number.
#[derive(Debug, PartialEq, Eq)]
pub enum Number {
    Int(i64),
    /// A number with a fraction or an exponent, in the spelling in which it was read.
    Float(String),
}

/// The mathematical value of a [`Number`].
pub enum NumberModel {
    Int(i64),
    Float(Seq<char>),
}

impl View for Number {
    type V = NumberModel;

    open spec fn view(&self) -> NumberModel {
        match self {
            Number::Int(n) => NumberModel::Int(*n),
            Number::Float(text) => NumberModel::Float(text@),
        }
    }
}

impl Clone for Number {
    fn clone(&self) -> (r: Self)
        ensures
            r@ == self@,
    {
        match self {
            Number::Int(n) => Number::Int(*n),
            Number::Float(text) => Number::Float(text.clone()),
        }
    }
}

/// The outward shape of a value, as error reports name it.
#[derive(Copy, Debug, PartialEq, Eq, Structural)]
pub enum ValueShape {
    Null,
    Bool,
    Number,
    String,
    Array,
    Object,
}

impl Clone for ValueShape {
    fn clone(&self) -> (r: Self)
        ensures
            r == *self,
    {
        *self
    }
}

/// A loosely typed value.
#[derive(Debug, PartialEq, Eq)]
pub enum Value {
    Null,
    Bool(bool),
    Number(Number),
    String(String),
    Array(Vec<Value>),
    /// Key and value pairs in the order in which they were read.
    Object(Vec<(String, Value)>),
    /// A value recovered from a fenced block, with the block's tag.
    Markdown(String, Box<Value>),
}

/// The mathematical value of a [`Value`].
pub enum ValueModel {
    Null,
    Bool(bool),
    Number(NumberModel),
    String(Seq<char>),
    Array(Seq<ValueModel>),
    Object(Seq<(Seq<char>, ValueModel)>),
    Markdown(Seq<char>, Box<ValueModel>),
}

impl Value {
    /// The mathematical value of this value.
    pub open spec fn model(self) -> ValueModel
        decreases self,
    {
        match self {
            Value::Null => ValueModel::Null,
            Value::Bool(b) => ValueModel::Bool(b),
            Value::Number(n) => ValueModel::Number(n@),
            Value::String(s) => ValueModel::String(s@),
            Value::Array(items) => ValueModel::Array(values_model(items@)),
            Value::Object(entries) => ValueModel::Object(entries_model(entries@)),
            Value::Markdown(tag, inner) => ValueModel::Markdown(tag@, Box::new((*inner).model())),
        }
    }
}

/// The mathematical values of a sequence of values.
pub open spec fn values_model(items: Seq<Value>) -> Seq<ValueModel>
    decreases items,
{
    Seq::new(
        items.len(),
        |i: int|
            if 0 <= i < items.len() {
                items[i].model()
            } else {
                ValueModel::Null
            },
    )
}

/// The mathematical values of the entries of an object.
pub open spec fn entries_model(entries: Seq<(String, Value)>) -> Seq<(Seq<char>, ValueModel)>
    decreases entries,
{
    Seq::new(
        entries.len(),
        |i: int|
            if 0 <= i < entries.len() {
                (entries[i].0@, entries[i].1.model())
            } else {
                (Seq::empty(), ValueModel::Null)
            },
    )
}

impl View for Value {
    type V = ValueModel;

    open spec fn view(&self) -> ValueModel {
        self.model()
    }
}

/// The value inside every fenced-block marker at the top of `v`.
pub open spec fn bare_value(v: ValueModel) -> ValueModel
    decreases v,
{
    match v {
        ValueModel::Markdown(_, inner) => bare_value(*inner),
        _ => v,
    }
}

/// The outward shape of `v`, looking through fenced-block markers.
pub open spec fn shape_of(v: ValueModel) -> ValueShape
    decreases v,
{
    match v {
        ValueModel::Null => ValueShape::Null,
        ValueModel::Bool(_) => ValueShape::Bool,
        ValueModel::Number(_) => ValueShape::Number,
        ValueModel::String(_) => ValueShape::String,
        ValueModel::Array(_) => ValueShape::Array,
        ValueModel::Object(_) => ValueShape::Object,
        ValueModel::Markdown(_, inner) => shape_of(*inner),
    }
}

fn clone_values(items: &Vec<Value>) -> (r: Vec<Value>)
    ensures
        values_model(r@) == values_model(items@),
    decreases items,
{
    let mut out: Vec<Value> = Vec::new();
    let mut i: usize = 0;
    while i < items.len()
        invariant
            i <= items.len(),
            out@.len() == i,
            values_model(out@) == values_model(items@).take(i as int),
        decreases items.len() - i,
    {
        let ghost prev = out@;
        let item = clone_value(&items[i]);
        out.push(item);
        assert(out@ == prev.push(item));
        assert(values_model(out@) =~= values_model(items@).take(i + 1)) by {
            assert forall|j: int| 0 <= j < i + 1 implies values_model(out@)[j] == values_model(
                items@,
            )[j] by {
                if j < i {
                    assert(values_model(prev)[j] == values_model(items@).take(i as int)[j]);
                }
            }
        }
        i += 1;
    }
    assert(values_model(items@).take(items.len() as int) =~= values_model(items@));
    out
}

fn clone_entries(entries: &Vec<(String, Value)>) -> (r: Vec<(String, Value)>)
    ensures
        entries_model(r@) == entries_model(entries@),
    decreases entries,
{
    let mut out: Vec<(String, Value)> = Vec::new();
    let mut i: usize = 0;
    while i < entries.len()
        invariant
            i <= entries.len(),
            out@.len() == i,
            entries_model(out@) == entries_model(entries@).take(i as int),
        decreases entries.len() - i,
    {
        let ghost prev = out@;
        let item = (entries[i].0.clone(), clone_value(&entries[i].1));
        out.push(item);
        assert(out@ == prev.push(item));
        assert(entries_model(out@) =~= entries_model(entries@).take(i + 1)) by {
            assert forall|j: int| 0 <= j < i + 1 implies entries_model(out@)[j] == entries_model(
                entries@,
            )[j] by {
                if j < i {
                    assert(entries_model(prev)[j] == entries_model(entries@).take(i as int)[j]);
                }
            }
        }
        i += 1;
    }
    assert(entries_model(entries@).take(entries.len() as int) =~= entries_model(entries@));
    out
}

fn clone_value(v: &Value) -> (r: Value)
    ensures
        r@ == v@,
    decreases v,
{
    match v {
        Value::Null => Value::Null,
        Value::Bool(b) => Value::Bool(*b),
        Value::Number(n) => Value::Number(n.clone()),
        Value::String(s) => Value::String(s.clone()),
        Value::Array(items) => Value::Array(clone_values(items)),
        Value::Object(entries) => Value::Object(clone_entries(entries)),
        Value::Markdown(tag, inner) => Value::Markdown(tag.clone(), Box::new(clone_value(inner))),
    }
}

impl Clone for Value {
    fn clone(&self) -> (r: Self)
        ensures
            r@ == self@,
    {
        clone_value(self)
    }
}

impl Value {
    /// The value inside every fenced-block marker at the top of this value.
    pub fn bare(&self) -> (r: &Value)
        ensures
            r@ == bare_value(self@),
            !(r@ is Markdown),
        decreases self,
    {
        match self {
            Value::Markdown(_, inner) => inner.bare(),
            _ => self,
        }
    }

    /// The outward shape of this value, looking through fenced-block markers.
    pub fn shape(&self) -> (r: ValueShape)
        ensures
            r == shape_of(self@),
        decreases self,
    {
        match self {
            Value::Null => ValueShape::Null,
            Value::Bool(_) => ValueShape::Bool,
            Value::Number(_) => ValueShape::Number,
            Value::String(_) => ValueShape::String,
            Value::Array(_) => ValueShape::Array,
            Value::Object(_) => ValueShape::Object,
            Value::Markdown(_, inner) => inner.shape(),
        }
    }
}

} // verus!
