//! Target types: the schema-side types that a value is coerced into.

use vstd::prelude::*;

verus! {

/// The kinds of media a media type can stand for.
#[derive(Copy, Debug, PartialEq, Eq, Structural)]
pub enum MediaKind {
    Image,
    Audio,
}

impl Clone for MediaKind {
    fn clone(&self) -> (r: Self)
        ensures
            r == *self,
    {
        *self
    }
}

/// The primitive kinds.
#[derive(Copy, Debug, PartialEq, Eq, Structural)]
pub enum TypeValue {
    String,
    Int,
    Float,
    Bool,
    Null,
    Media(MediaKind),
}

impl Clone for TypeValue {
    fn clone(&self) -> (r: Self)
        ensures
            r == *self,
    {
        *self
    }
}

/// A single exact value that a literal type admits.
#[derive(Debug, PartialEq, Eq)]
pub enum LiteralValue {
    String(String),
    Int(i64),
    Bool(bool),
}

/// The mathematical value of a [`LiteralValue`].
pub enum LiteralModel {
    String(Seq<char>),
    Int(i64),
    Bool(bool),
}

impl View for LiteralValue {
    type V = LiteralModel;

    open spec fn view(&self) -> LiteralModel {
        match self {
            LiteralValue::String(s) => LiteralModel::String(s@),
            LiteralValue::Int(n) => LiteralModel::Int(*n),
            LiteralValue::Bool(b) => LiteralModel::Bool(*b),
        }
    }
}

impl Clone for LiteralValue {
    fn clone(&self) -> (r: Self)
        ensures
            r@ == self@,
    {
        match self {
            LiteralValue::String(s) => LiteralValue::String(s.clone()),
            LiteralValue::Int(n) => LiteralValue::Int(*n),
            LiteralValue::Bool(b) => LiteralValue::Bool(*b),
        }
    }
}

/// Whether a failed constraint is reported or makes the value invalid.
#[derive(Copy, Debug, PartialEq, Eq, Structural)]
pub enum ConstraintLevel {
    Check,
    Assert,
}

impl Clone for ConstraintLevel {
    fn clone(&self) -> (r: Self)
        ensures
            r == *self,
    {
        *self
    }
}

/// A constraint attached to a type: an expression over the value, with an
/// optional label.
#[derive(Debug, PartialEq, Eq)]
pub struct Constraint {
    pub level: ConstraintLevel,
    pub expression: String,
    pub label: Option<String>,
}

/// The mathematical value of a [`Constraint`].
pub struct ConstraintModel {
    pub level: ConstraintLevel,
    pub expression: Seq<char>,
    pub label: Option<Seq<char>>,
}

impl View for Constraint {
    type V = ConstraintModel;

    open spec fn view(&self) -> ConstraintModel {
        ConstraintModel {
            level: self.level,
            expression: self.expression@,
            label: match self.label {
                Some(l) => Some(l@),
                None => None,
            },
        }
    }
}

impl Clone for Constraint {
    fn clone(&self) -> (r: Self)
        ensures
            r@ == self@,
    {
        Constraint {
            level: self.level,
            expression: self.expression.clone(),
            label: match &self.label {
                Some(l) => Some(l.clone()),
                None => None,
            },
        }
    }
}

/// The views of a sequence of constraints.
pub open spec fn constraints_view(v: Seq<Constraint>) -> Seq<ConstraintModel> {
    Seq::new(v.len(), |i: int| v[i]@)
}

/// A copy of a list of constraints.
pub fn clone_constraints(v: &Vec<Constraint>) -> (r: Vec<Constraint>)
    ensures
        constraints_view(r@) == constraints_view(v@),
{
    let mut out: Vec<Constraint> = Vec::new();
    let mut i: usize = 0;
    while i < v.len()
        invariant
            i <= v.len(),
            out@.len() == i,
            constraints_view(out@) == constraints_view(v@).take(i as int),
        decreases v.len() - i,
    {
        let ghost prev = out@;
        let item = v[i].clone();
        out.push(item);
        assert(out@ == prev.push(item));
        assert(constraints_view(out@) =~= constraints_view(v@).take(i + 1)) by {
            assert forall|j: int| 0 <= j < i + 1 implies constraints_view(out@)[j]
                == constraints_view(v@)[j] by {
                if j < i {
                    assert(constraints_view(prev)[j] == constraints_view(v@).take(i as int)[j]);
                }
            }
        }
        i += 1;
    }
    assert(constraints_view(v@).take(v.len() as int) =~= constraints_view(v@));
    out
}

/// A target type.
#[derive(Debug, PartialEq, Eq)]
pub enum FieldType {
    Primitive(TypeValue),
    Enum(String),
    Literal(LiteralValue),
    Class(String),
    List(Box<FieldType>),
    /// A map from keys of the first type to values of the second.
    MapOf(Box<FieldType>, Box<FieldType>),
    Union(Vec<FieldType>),
    Tuple(Vec<FieldType>),
    Optional(Box<FieldType>),
    Constrained { base: Box<FieldType>, constraints: Vec<Constraint> },
}

/// The mathematical value of a [`FieldType`].
pub enum TypeModel {
    Primitive(TypeValue),
    Enum(Seq<char>),
    Literal(LiteralModel),
    Class(Seq<char>),
    List(Box<TypeModel>),
    MapOf(Box<TypeModel>, Box<TypeModel>),
    Union(Seq<TypeModel>),
    Tuple(Seq<TypeModel>),
    Optional(Box<TypeModel>),
    Constrained(Box<TypeModel>, Seq<ConstraintModel>),
}

impl FieldType {
    /// The mathematical value of this type.
    pub open spec fn model(self) -> TypeModel
        decreases self,
    {
        match self {
            FieldType::Primitive(t) => TypeModel::Primitive(t),
            FieldType::Enum(name) => TypeModel::Enum(name@),
            FieldType::Literal(l) => TypeModel::Literal(l@),
            FieldType::Class(name) => TypeModel::Class(name@),
            FieldType::List(inner) => TypeModel::List(Box::new((*inner).model())),
            FieldType::MapOf(k, v) => TypeModel::MapOf(
                Box::new((*k).model()),
                Box::new((*v).model()),
            ),
            FieldType::Union(items) => TypeModel::Union(types_model(items@)),
            FieldType::Tuple(items) => TypeModel::Tuple(types_model(items@)),
            FieldType::Optional(inner) => TypeModel::Optional(Box::new((*inner).model())),
            FieldType::Constrained { base, constraints } => TypeModel::Constrained(
                Box::new((*base).model()),
                constraints_view(constraints@),
            ),
        }
    }
}

/// The mathematical values of a sequence of types.
pub open spec fn types_model(items: Seq<FieldType>) -> Seq<TypeModel>
    decreases items,
{
    Seq::new(
        items.len(),
        |i: int|
            if 0 <= i < items.len() {
                items[i].model()
            } else {
                TypeModel::Primitive(TypeValue::Null)
            },
    )
}

impl View for FieldType {
    type V = TypeModel;

    open spec fn view(&self) -> TypeModel {
        self.model()
    }
}

/// A copy of a list of types.
fn clone_types(items: &Vec<FieldType>) -> (r: Vec<FieldType>)
    ensures
        types_model(r@) == types_model(items@),
    decreases items,
{
    let mut out: Vec<FieldType> = Vec::new();
    let mut i: usize = 0;
    while i < items.len()
        invariant
            i <= items.len(),
            out@.len() == i,
            types_model(out@) == types_model(items@).take(i as int),
        decreases items.len() - i,
    {
        let ghost prev = out@;
        let item = clone_type(&items[i]);
        out.push(item);
        assert(out@ == prev.push(item));
        assert(types_model(out@) =~= types_model(items@).take(i + 1)) by {
            assert forall|j: int| 0 <= j < i + 1 implies types_model(out@)[j] == types_model(
                items@,
            )[j] by {
                if j < i {
                    assert(types_model(prev)[j] == types_model(items@).take(i as int)[j]);
                }
            }
        }
        i += 1;
    }
    assert(types_model(items@).take(items.len() as int) =~= types_model(items@));
    out
}

/// A copy of a type.
fn clone_type(t: &FieldType) -> (r: FieldType)
    ensures
        r@ == t@,
    decreases t,
{
    match t {
        FieldType::Primitive(p) => FieldType::Primitive(*p),
        FieldType::Enum(name) => FieldType::Enum(name.clone()),
        FieldType::Literal(l) => FieldType::Literal(l.clone()),
        FieldType::Class(name) => FieldType::Class(name.clone()),
        FieldType::List(inner) => FieldType::List(Box::new(clone_type(inner))),
        FieldType::MapOf(k, v) => FieldType::MapOf(
            Box::new(clone_type(k)),
            Box::new(clone_type(v)),
        ),
        FieldType::Union(items) => FieldType::Union(clone_types(items)),
        FieldType::Tuple(items) => FieldType::Tuple(clone_types(items)),
        FieldType::Optional(inner) => FieldType::Optional(Box::new(clone_type(inner))),
        FieldType::Constrained { base, constraints } => FieldType::Constrained {
            base: Box::new(clone_type(base)),
            constraints: clone_constraints(constraints),
        },
    }
}

impl Clone for FieldType {
    fn clone(&self) -> (r: Self)
        ensures
            r@ == self@,
    {
        clone_type(self)
    }
}

/// The type under every constraint wrapper at the top of `t`.
pub open spec fn bare_type(t: TypeModel) -> TypeModel
    decreases t,
{
    match t {
        TypeModel::Constrained(base, _) => bare_type(*base),
        _ => t,
    }
}

/// The constraints of every wrapper at the top of `t`, outermost first.
pub open spec fn all_constraints(t: TypeModel) -> Seq<ConstraintModel>
    decreases t,
{
    match t {
        TypeModel::Constrained(base, constraints) => constraints + all_constraints(*base),
        _ => Seq::empty(),
    }
}

impl FieldType {
    /// Splits a type into the type under its constraint wrappers and the
    /// constraints of those wrappers, outermost first. The type that comes
    /// back is never a constraint wrapper.
    pub fn distribute_constraints(&self) -> (r: (&FieldType, Vec<Constraint>))
        ensures
            r.0@ == bare_type(self@),
            !(r.0@ is Constrained),
            constraints_view(r.1@) == all_constraints(self@),
        decreases self,
    {
        match self {
            FieldType::Constrained { base, constraints } => {
                let (bare, mut inner) = base.distribute_constraints();
                let mut all = clone_constraints(constraints);
                let ghost outer = all@;
                let ghost rest = inner@;
                all.append(&mut inner);
                assert(constraints_view(all@) =~= constraints_view(outer) + constraints_view(
                    rest,
                ));
                (bare, all)
            },
            _ => {
                let none: Vec<Constraint> = Vec::new();
                assert(constraints_view(none@) =~= Seq::empty());
                (self, none)
            },
        }
    }
}

} // verus!
