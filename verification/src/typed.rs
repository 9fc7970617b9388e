//! Coerced values: the plain value tree, and the same tree with the flags of
//! every node.

use vstd::prelude::*;
use crate::flags::{
    add_scores, flags_score, saturate, DeserializerConditions, Flag, FlagModel,
};
use crate::value::{entries_model, values_model, Number, NumberModel, Value, ValueModel};

verus! {

/// A typed value without flags.
#[derive(Debug, PartialEq, Eq)]
pub enum BamlValue {
    String(String),
    Int(i64),
    /// A decimal number, in its spelling.
    Float(String),
    Bool(bool),
    /// Key and value pairs in insertion order.
    MapOf(Vec<(String, BamlValue)>),
    List(Vec<BamlValue>),
    /// The enum's name and the member's name.
    Enum(String, String),
    /// The class's name and its fields in declaration order.
    Class(String, Vec<(String, BamlValue)>),
    Null,
}

/// The mathematical value of a [`BamlValue`].
pub enum PlainModel {
    String(Seq<char>),
    Int(i64),
    Float(Seq<char>),
    Bool(bool),
    MapOf(Seq<(Seq<char>, PlainModel)>),
    List(Seq<PlainModel>),
    Enum(Seq<char>, Seq<char>),
    Class(Seq<char>, Seq<(Seq<char>, PlainModel)>),
    Null,
}

impl BamlValue {
    /// The mathematical value of this value.
    pub open spec fn model(self) -> PlainModel
        decreases self,
    {
        match self {
            BamlValue::String(s) => PlainModel::String(s@),
            BamlValue::Int(n) => PlainModel::Int(n),
            BamlValue::Float(text) => PlainModel::Float(text@),
            BamlValue::Bool(b) => PlainModel::Bool(b),
            BamlValue::MapOf(entries) => PlainModel::MapOf(plain_pairs_model(entries@)),
            BamlValue::List(items) => PlainModel::List(plain_items_model(items@)),
            BamlValue::Enum(name, member) => PlainModel::Enum(name@, member@),
            BamlValue::Class(name, fields) => PlainModel::Class(name@, plain_pairs_model(fields@)),
            BamlValue::Null => PlainModel::Null,
        }
    }
}

/// The mathematical values of a sequence of plain values.
pub open spec fn plain_items_model(items: Seq<BamlValue>) -> Seq<PlainModel>
    decreases items,
{
    Seq::new(
        items.len(),
        |i: int|
            if 0 <= i < items.len() {
                items[i].model()
            } else {
                PlainModel::Null
            },
    )
}

/// The mathematical values of a sequence of named plain values.
pub open spec fn plain_pairs_model(pairs: Seq<(String, BamlValue)>) -> Seq<(Seq<char>, PlainModel)>
    decreases pairs,
{
    Seq::new(
        pairs.len(),
        |i: int|
            if 0 <= i < pairs.len() {
                (pairs[i].0@, pairs[i].1.model())
            } else {
                (Seq::empty(), PlainModel::Null)
            },
    )
}

impl View for BamlValue {
    type V = PlainModel;

    open spec fn view(&self) -> PlainModel {
        self.model()
    }
}

/// A typed value in which every node carries its flags.
#[derive(Debug, PartialEq, Eq)]
pub enum BamlValueWithFlags {
    String(DeserializerConditions, String),
    Int(DeserializerConditions, i64),
    /// A decimal number, in its spelling.
    Float(DeserializerConditions, String),
    Bool(DeserializerConditions, bool),
    List(DeserializerConditions, Vec<BamlValueWithFlags>),
    /// Entries in insertion order, each with the flags of the entry itself.
    MapOf(DeserializerConditions, Vec<(String, (DeserializerConditions, BamlValueWithFlags))>),
    /// The enum's name, the flags, and the member's name.
    Enum(String, DeserializerConditions, String),
    /// The class's name, the flags, and the fields in declaration order.
    Class(String, DeserializerConditions, Vec<(String, BamlValueWithFlags)>),
    Null(DeserializerConditions),
}

/// The mathematical value of a [`BamlValueWithFlags`].
pub enum TypedModel {
    String(Seq<FlagModel>, Seq<char>),
    Int(Seq<FlagModel>, i64),
    Float(Seq<FlagModel>, Seq<char>),
    Bool(Seq<FlagModel>, bool),
    List(Seq<FlagModel>, Seq<TypedModel>),
    MapOf(Seq<FlagModel>, Seq<(Seq<char>, (Seq<FlagModel>, TypedModel))>),
    Enum(Seq<char>, Seq<FlagModel>, Seq<char>),
    Class(Seq<char>, Seq<FlagModel>, Seq<(Seq<char>, TypedModel)>),
    Null(Seq<FlagModel>),
}

impl BamlValueWithFlags {
    /// The mathematical value of this value.
    pub open spec fn model(self) -> TypedModel
        decreases self,
    {
        match self {
            BamlValueWithFlags::String(c, s) => TypedModel::String(c@, s@),
            BamlValueWithFlags::Int(c, n) => TypedModel::Int(c@, n),
            BamlValueWithFlags::Float(c, text) => TypedModel::Float(c@, text@),
            BamlValueWithFlags::Bool(c, b) => TypedModel::Bool(c@, b),
            BamlValueWithFlags::List(c, items) => TypedModel::List(c@, typed_items_model(items@)),
            BamlValueWithFlags::MapOf(c, entries) => TypedModel::MapOf(
                c@,
                typed_entries_model(entries@),
            ),
            BamlValueWithFlags::Enum(name, c, member) => TypedModel::Enum(name@, c@, member@),
            BamlValueWithFlags::Class(name, c, fields) => TypedModel::Class(
                name@,
                c@,
                typed_fields_model(fields@),
            ),
            BamlValueWithFlags::Null(c) => TypedModel::Null(c@),
        }
    }
}

/// The mathematical values of a sequence of typed values.
pub open spec fn typed_items_model(items: Seq<BamlValueWithFlags>) -> Seq<TypedModel>
    decreases items,
{
    Seq::new(
        items.len(),
        |i: int|
            if 0 <= i < items.len() {
                items[i].model()
            } else {
                TypedModel::Null(Seq::empty())
            },
    )
}

/// The mathematical values of the fields of a class value.
pub open spec fn typed_fields_model(fields: Seq<(String, BamlValueWithFlags)>) -> Seq<
    (Seq<char>, TypedModel),
>
    decreases fields,
{
    Seq::new(
        fields.len(),
        |i: int|
            if 0 <= i < fields.len() {
                (fields[i].0@, fields[i].1.model())
            } else {
                (Seq::empty(), TypedModel::Null(Seq::empty()))
            },
    )
}

/// The mathematical values of the entries of a map value.
pub open spec fn typed_entries_model(
    entries: Seq<(String, (DeserializerConditions, BamlValueWithFlags))>,
) -> Seq<(Seq<char>, (Seq<FlagModel>, TypedModel))>
    decreases entries,
{
    Seq::new(
        entries.len(),
        |i: int|
            if 0 <= i < entries.len() {
                (entries[i].0@, (entries[i].1.0@, entries[i].1.1.model()))
            } else {
                (Seq::empty(), (Seq::empty(), TypedModel::Null(Seq::empty())))
            },
    )
}

impl View for BamlValueWithFlags {
    type V = TypedModel;

    open spec fn view(&self) -> TypedModel {
        self.model()
    }
}

/// The flags of the top node of a typed value.
pub open spec fn flags_of(t: TypedModel) -> Seq<FlagModel> {
    match t {
        TypedModel::String(c, _) => c,
        TypedModel::Int(c, _) => c,
        TypedModel::Float(c, _) => c,
        TypedModel::Bool(c, _) => c,
        TypedModel::List(c, _) => c,
        TypedModel::MapOf(c, _) => c,
        TypedModel::Enum(_, c, _) => c,
        TypedModel::Class(_, c, _) => c,
        TypedModel::Null(c) => c,
    }
}

/// `t` with `flag` appended to the flags of its top node.
pub open spec fn with_flag(t: TypedModel, flag: FlagModel) -> TypedModel {
    match t {
        TypedModel::String(c, s) => TypedModel::String(c.push(flag), s),
        TypedModel::Int(c, n) => TypedModel::Int(c.push(flag), n),
        TypedModel::Float(c, text) => TypedModel::Float(c.push(flag), text),
        TypedModel::Bool(c, b) => TypedModel::Bool(c.push(flag), b),
        TypedModel::List(c, items) => TypedModel::List(c.push(flag), items),
        TypedModel::MapOf(c, entries) => TypedModel::MapOf(c.push(flag), entries),
        TypedModel::Enum(name, c, member) => TypedModel::Enum(name, c.push(flag), member),
        TypedModel::Class(name, c, fields) => TypedModel::Class(name, c.push(flag), fields),
        TypedModel::Null(c) => TypedModel::Null(c.push(flag)),
    }
}

/// The plain value that a typed value stands for: the same tree without flags.
pub open spec fn plain_of(t: TypedModel) -> PlainModel
    decreases t,
{
    match t {
        TypedModel::String(_, s) => PlainModel::String(s),
        TypedModel::Int(_, n) => PlainModel::Int(n),
        TypedModel::Float(_, text) => PlainModel::Float(text),
        TypedModel::Bool(_, b) => PlainModel::Bool(b),
        TypedModel::List(_, items) => PlainModel::List(
            Seq::new(
                items.len(),
                |i: int|
                    if 0 <= i < items.len() {
                        plain_of(items[i])
                    } else {
                        PlainModel::Null
                    },
            ),
        ),
        TypedModel::MapOf(_, entries) => PlainModel::MapOf(
            Seq::new(
                entries.len(),
                |i: int|
                    if 0 <= i < entries.len() {
                        (entries[i].0, plain_of(entries[i].1.1))
                    } else {
                        (Seq::empty(), PlainModel::Null)
                    },
            ),
        ),
        TypedModel::Enum(name, _, member) => PlainModel::Enum(name, member),
        TypedModel::Class(name, _, fields) => PlainModel::Class(
            name,
            Seq::new(
                fields.len(),
                |i: int|
                    if 0 <= i < fields.len() {
                        (fields[i].0, plain_of(fields[i].1))
                    } else {
                        (Seq::empty(), PlainModel::Null)
                    },
            ),
        ),
        TypedModel::Null(_) => PlainModel::Null,
    }
}

/// The loosely typed value that spells a plain value: what a parser would
/// hand over for the value's own text.
pub open spec fn value_of(p: PlainModel) -> ValueModel
    decreases p,
{
    match p {
        PlainModel::String(s) => ValueModel::String(s),
        PlainModel::Int(n) => ValueModel::Number(NumberModel::Int(n)),
        PlainModel::Float(text) => ValueModel::Number(NumberModel::Float(text)),
        PlainModel::Bool(b) => ValueModel::Bool(b),
        PlainModel::MapOf(entries) => ValueModel::Object(
            Seq::new(
                entries.len(),
                |i: int|
                    if 0 <= i < entries.len() {
                        (entries[i].0, value_of(entries[i].1))
                    } else {
                        (Seq::empty(), ValueModel::Null)
                    },
            ),
        ),
        PlainModel::List(items) => ValueModel::Array(
            Seq::new(
                items.len(),
                |i: int|
                    if 0 <= i < items.len() {
                        value_of(items[i])
                    } else {
                        ValueModel::Null
                    },
            ),
        ),
        PlainModel::Enum(_, member) => ValueModel::String(member),
        PlainModel::Class(_, fields) => ValueModel::Object(
            Seq::new(
                fields.len(),
                |i: int|
                    if 0 <= i < fields.len() {
                        (fields[i].0, value_of(fields[i].1))
                    } else {
                        (Seq::empty(), ValueModel::Null)
                    },
            ),
        ),
        PlainModel::Null => ValueModel::Null,
    }
}

/// The score of a typed value: the scores of the flags of all its nodes and
/// map entries, added up. A lower score is a better match.
pub open spec fn typed_score(t: TypedModel) -> nat
    decreases t, 0nat,
{
    match t {
        TypedModel::List(c, items) => flags_score(c) + items_score(items, items.len()),
        TypedModel::MapOf(c, entries) => flags_score(c) + entries_score(entries, entries.len()),
        TypedModel::Class(_, c, fields) => flags_score(c) + fields_score(fields, fields.len()),
        _ => flags_score(flags_of(t)),
    }
}

/// The scores of the first `n` items, added up.
pub open spec fn items_score(items: Seq<TypedModel>, n: nat) -> nat
    decreases items, n,
{
    if n == 0 || n > items.len() {
        0
    } else {
        items_score(items, (n - 1) as nat) + typed_score(items[n - 1])
    }
}

/// The scores of the first `n` fields, added up.
pub open spec fn fields_score(fields: Seq<(Seq<char>, TypedModel)>, n: nat) -> nat
    decreases fields, n,
{
    if n == 0 || n > fields.len() {
        0
    } else {
        fields_score(fields, (n - 1) as nat) + typed_score(fields[n - 1].1)
    }
}

/// The scores of the first `n` map entries, each with its own flags, added up.
pub open spec fn entries_score(
    entries: Seq<(Seq<char>, (Seq<FlagModel>, TypedModel))>,
    n: nat,
) -> nat
    decreases entries, n,
{
    if n == 0 || n > entries.len() {
        0
    } else {
        entries_score(entries, (n - 1) as nat) + flags_score(entries[n - 1].1.0) + typed_score(
            entries[n - 1].1.1,
        )
    }
}

impl BamlValueWithFlags {
    /// The flags of the top node.
    pub fn conditions(&self) -> (r: &DeserializerConditions)
        ensures
            r@ == flags_of(self@),
    {
        match self {
            BamlValueWithFlags::String(c, _) => c,
            BamlValueWithFlags::Int(c, _) => c,
            BamlValueWithFlags::Float(c, _) => c,
            BamlValueWithFlags::Bool(c, _) => c,
            BamlValueWithFlags::List(c, _) => c,
            BamlValueWithFlags::MapOf(c, _) => c,
            BamlValueWithFlags::Enum(_, c, _) => c,
            BamlValueWithFlags::Class(_, c, _) => c,
            BamlValueWithFlags::Null(c) => c,
        }
    }

    /// This value with `flag` appended to the flags of its top node.
    pub fn add_flag(self, flag: Flag) -> (r: Self)
        ensures
            r@ == with_flag(self@, flag@),
    {
        match self {
            BamlValueWithFlags::String(mut c, s) => {
                c.add_flag(flag);
                BamlValueWithFlags::String(c, s)
            },
            BamlValueWithFlags::Int(mut c, n) => {
                c.add_flag(flag);
                BamlValueWithFlags::Int(c, n)
            },
            BamlValueWithFlags::Float(mut c, text) => {
                c.add_flag(flag);
                BamlValueWithFlags::Float(c, text)
            },
            BamlValueWithFlags::Bool(mut c, b) => {
                c.add_flag(flag);
                BamlValueWithFlags::Bool(c, b)
            },
            BamlValueWithFlags::List(mut c, items) => {
                c.add_flag(flag);
                BamlValueWithFlags::List(c, items)
            },
            BamlValueWithFlags::MapOf(mut c, entries) => {
                c.add_flag(flag);
                BamlValueWithFlags::MapOf(c, entries)
            },
            BamlValueWithFlags::Enum(name, mut c, member) => {
                c.add_flag(flag);
                BamlValueWithFlags::Enum(name, c, member)
            },
            BamlValueWithFlags::Class(name, mut c, fields) => {
                c.add_flag(flag);
                BamlValueWithFlags::Class(name, c, fields)
            },
            BamlValueWithFlags::Null(mut c) => {
                c.add_flag(flag);
                BamlValueWithFlags::Null(c)
            },
        }
    }

    /// The score of this value, stopping at the largest `u64`.
    pub fn score(&self) -> (r: u64)
        ensures
            r == saturate(typed_score(self@)),
        decreases self,
    {
        match self {
            BamlValueWithFlags::List(c, items) => {
                let mut total: u64 = 0;
                let mut i: usize = 0;
                let ghost models = typed_items_model(items@);
                while i < items.len()
                    invariant
                        i <= items.len(),
                        self matches BamlValueWithFlags::List(_, own) && own == *items,
                        models == typed_items_model(items@),
                        total == saturate(items_score(models, i as nat)),
                    decreases items.len() - i,
                {
                    assert(models[i as int] == items@[i as int]@);
                    total = add_scores(total, items[i].score());
                    i += 1;
                }
                add_scores(c.score(), total)
            },
            BamlValueWithFlags::MapOf(c, entries) => {
                let mut total: u64 = 0;
                let mut i: usize = 0;
                let ghost models = typed_entries_model(entries@);
                while i < entries.len()
                    invariant
                        i <= entries.len(),
                        self matches BamlValueWithFlags::MapOf(_, own) && own == *entries,
                        models == typed_entries_model(entries@),
                        total == saturate(entries_score(models, i as nat)),
                    decreases entries.len() - i,
                {
                    assert(models[i as int].1.0 == entries@[i as int].1.0@);
                    assert(models[i as int].1.1 == entries@[i as int].1.1@);
                    let entry = &entries[i];
                    total = add_scores(total, entry.1.0.score());
                    total = add_scores(total, entry.1.1.score());
                    i += 1;
                }
                add_scores(c.score(), total)
            },
            BamlValueWithFlags::Class(_, c, fields) => {
                let mut total: u64 = 0;
                let mut i: usize = 0;
                let ghost models = typed_fields_model(fields@);
                while i < fields.len()
                    invariant
                        i <= fields.len(),
                        self matches BamlValueWithFlags::Class(_, _, own) && own == *fields,
                        models == typed_fields_model(fields@),
                        total == saturate(fields_score(models, i as nat)),
                    decreases fields.len() - i,
                {
                    assert(models[i as int].1 == fields@[i as int].1@);
                    total = add_scores(total, fields[i].1.score());
                    i += 1;
                }
                add_scores(c.score(), total)
            },
            _ => self.conditions().score(),
        }
    }

    /// The plain value that this value stands for: the same tree without flags.
    pub fn to_plain(&self) -> (r: BamlValue)
        ensures
            r@ == plain_of(self@),
        decreases self,
    {
        match self {
            BamlValueWithFlags::String(_, s) => BamlValue::String(s.clone()),
            BamlValueWithFlags::Int(_, n) => BamlValue::Int(*n),
            BamlValueWithFlags::Float(_, text) => BamlValue::Float(text.clone()),
            BamlValueWithFlags::Bool(_, b) => BamlValue::Bool(*b),
            BamlValueWithFlags::List(c, items) => {
                let mut out: Vec<BamlValue> = Vec::new();
                let mut i: usize = 0;
                let ghost want = plain_of(self@)->List_0;
                while i < items.len()
                    invariant
                        i <= items.len(),
                        out@.len() == i,
                        self matches BamlValueWithFlags::List(_, own) && own == *items,
                        want == plain_of(self@)->List_0,
                        want.len() == items.len(),
                        plain_items_model(out@) == want.take(i as int),
                    decreases items.len() - i,
                {
                    let ghost prev = out@;
                    let item = items[i].to_plain();
                    out.push(item);
                    assert(out@ == prev.push(item));
                    assert(plain_items_model(out@) =~= want.take(i + 1)) by {
                        assert(typed_items_model(items@)[i as int] == items@[i as int]@);
                        assert forall|j: int| 0 <= j < i + 1 implies plain_items_model(out@)[j]
                            == want[j] by {
                            if j < i {
                                assert(plain_items_model(prev)[j] == want.take(i as int)[j]);
                            }
                        }
                    }
                    i += 1;
                }
                assert(want.take(items.len() as int) =~= want);
                BamlValue::List(out)
            },
            BamlValueWithFlags::MapOf(c, entries) => {
                let mut out: Vec<(String, BamlValue)> = Vec::new();
                let mut i: usize = 0;
                let ghost want = plain_of(self@)->MapOf_0;
                while i < entries.len()
                    invariant
                        i <= entries.len(),
                        out@.len() == i,
                        self matches BamlValueWithFlags::MapOf(_, own) && own == *entries,
                        want == plain_of(self@)->MapOf_0,
                        want.len() == entries.len(),
                        plain_pairs_model(out@) == want.take(i as int),
                    decreases entries.len() - i,
                {
                    let ghost prev = out@;
                    let entry = &entries[i];
                    let item = (entry.0.clone(), entry.1.1.to_plain());
                    out.push(item);
                    assert(out@ == prev.push(item));
                    assert(plain_pairs_model(out@) =~= want.take(i + 1)) by {
                        assert(typed_entries_model(entries@)[i as int].0 == entries@[i as int].0@);
                        assert(typed_entries_model(entries@)[i as int].1.1
                            == entries@[i as int].1.1@);
                        assert forall|j: int| 0 <= j < i + 1 implies plain_pairs_model(out@)[j]
                            == want[j] by {
                            if j < i {
                                assert(plain_pairs_model(prev)[j] == want.take(i as int)[j]);
                            }
                        }
                    }
                    i += 1;
                }
                assert(want.take(entries.len() as int) =~= want);
                BamlValue::MapOf(out)
            },
            BamlValueWithFlags::Enum(name, _, member) => BamlValue::Enum(
                name.clone(),
                member.clone(),
            ),
            BamlValueWithFlags::Class(name, c, fields) => {
                let mut out: Vec<(String, BamlValue)> = Vec::new();
                let mut i: usize = 0;
                let ghost want = plain_of(self@)->Class_1;
                while i < fields.len()
                    invariant
                        i <= fields.len(),
                        out@.len() == i,
                        self matches BamlValueWithFlags::Class(_, _, own) && own == *fields,
                        want == plain_of(self@)->Class_1,
                        want.len() == fields.len(),
                        plain_pairs_model(out@) == want.take(i as int),
                    decreases fields.len() - i,
                {
                    let ghost prev = out@;
                    let field = &fields[i];
                    let item = (field.0.clone(), field.1.to_plain());
                    out.push(item);
                    assert(out@ == prev.push(item));
                    assert(plain_pairs_model(out@) =~= want.take(i + 1)) by {
                        assert(typed_fields_model(fields@)[i as int].0 == fields@[i as int].0@);
                        assert(typed_fields_model(fields@)[i as int].1 == fields@[i as int].1@);
                        assert forall|j: int| 0 <= j < i + 1 implies plain_pairs_model(out@)[j]
                            == want[j] by {
                            if j < i {
                                assert(plain_pairs_model(prev)[j] == want.take(i as int)[j]);
                            }
                        }
                    }
                    i += 1;
                }
                assert(want.take(fields.len() as int) =~= want);
                BamlValue::Class(name.clone(), out)
            },
            BamlValueWithFlags::Null(_) => BamlValue::Null,
        }
    }
}

impl BamlValue {
    /// The loosely typed value that spells this value.
    pub fn to_value(&self) -> (r: Value)
        ensures
            r@ == value_of(self@),
        decreases self,
    {
        match self {
            BamlValue::String(s) => Value::String(s.clone()),
            BamlValue::Int(n) => Value::Number(Number::Int(*n)),
            BamlValue::Float(text) => Value::Number(Number::Float(text.clone())),
            BamlValue::Bool(b) => Value::Bool(*b),
            BamlValue::MapOf(entries) => {
                let ghost want = value_of(self@)->Object_0;
                let out = pairs_to_entries(entries);
                assert(entries_model(out@) =~= want) by {
                    assert forall|j: int| 0 <= j < want.len() implies entries_model(
                        out@,
                    )[j] == want[j] by {
                        assert(plain_pairs_model(entries@)[j].1 == entries@[j].1@);
                    }
                }
                Value::Object(out)
            },
            BamlValue::List(items) => {
                let mut out: Vec<Value> = Vec::new();
                let mut i: usize = 0;
                let ghost want = value_of(self@)->Array_0;
                while i < items.len()
                    invariant
                        i <= items.len(),
                        out@.len() == i,
                        self matches BamlValue::List(own) && own == *items,
                        want == value_of(self@)->Array_0,
                        want.len() == items.len(),
                        values_model(out@) == want.take(i as int),
                    decreases items.len() - i,
                {
                    let ghost prev = out@;
                    let item = items[i].to_value();
                    out.push(item);
                    assert(out@ == prev.push(item));
                    assert(values_model(out@) =~= want.take(i + 1)) by {
                        assert(plain_items_model(items@)[i as int] == items@[i as int]@);
                        assert forall|j: int| 0 <= j < i + 1 implies values_model(
                            out@,
                        )[j] == want[j] by {
                            if j < i {
                                assert(values_model(prev)[j] == want.take(
                                    i as int,
                                )[j]);
                            }
                        }
                    }
                    i += 1;
                }
                assert(want.take(items.len() as int) =~= want);
                Value::Array(out)
            },
            BamlValue::Enum(_, member) => Value::String(member.clone()),
            BamlValue::Class(_, fields) => {
                let ghost want = value_of(self@)->Object_0;
                let out = pairs_to_entries(fields);
                assert(entries_model(out@) =~= want) by {
                    assert forall|j: int| 0 <= j < want.len() implies entries_model(
                        out@,
                    )[j] == want[j] by {
                        assert(plain_pairs_model(fields@)[j].1 == fields@[j].1@);
                    }
                }
                Value::Object(out)
            },
            BamlValue::Null => Value::Null,
        }
    }
}

/// The entries that spell a sequence of named plain values.
fn pairs_to_entries(pairs: &Vec<(String, BamlValue)>) -> (r: Vec<(String, Value)>)
    ensures
        r@.len() == pairs@.len(),
        forall|j: int|
            0 <= j < pairs@.len() ==> (#[trigger] r@[j]).0@ == pairs@[j].0@ && r@[j].1@
                == value_of(pairs@[j].1@),
    decreases pairs,
{
    let mut out: Vec<(String, Value)> = Vec::new();
    let mut i: usize = 0;
    while i < pairs.len()
        invariant
            i <= pairs.len(),
            out@.len() == i,
            forall|j: int|
                0 <= j < i ==> (#[trigger] out@[j]).0@ == pairs@[j].0@ && out@[j].1@
                    == value_of(pairs@[j].1@),
        decreases pairs.len() - i,
    {
        let pair = &pairs[i];
        let ghost prev = out@;
        let entry = (pair.0.clone(), pair.1.to_value());
        out.push(entry);
        assert(out@ == prev.push(entry));
        i += 1;
    }
    out
}

/// The model of a list of typed values with one more at the end.
pub proof fn lemma_typed_items_push(items: Seq<BamlValueWithFlags>, item: BamlValueWithFlags)
    ensures
        typed_items_model(items.push(item)) == typed_items_model(items).push(item@),
{
    assert(typed_items_model(items.push(item)) =~= typed_items_model(items).push(item@));
}

/// The model of a list of fields with one more at the end.
pub proof fn lemma_typed_fields_push(
    fields: Seq<(String, BamlValueWithFlags)>,
    field: (String, BamlValueWithFlags),
)
    ensures
        typed_fields_model(fields.push(field)) == typed_fields_model(fields).push(
            (field.0@, field.1@),
        ),
{
    assert(typed_fields_model(fields.push(field)) =~= typed_fields_model(fields).push(
        (field.0@, field.1@),
    ));
}

} // verus!
