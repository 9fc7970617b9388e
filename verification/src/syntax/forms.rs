//! Identifiers, types, classes, attributes and expressions as they are written.
//!
//! A type is written as a builtin name (`int`), a user's name (`MyType`), an
//! optional (`int?`), a list (`int[]`), a choice (`int | string`), or any of
//! these with attributes behind it.

use vstd::prelude::*;
use crate::span::Span;
use crate::syntax::pos::WithPos;
use crate::text::str_eq;

verus! {

/// A name, with its metadata.
#[derive(Debug)]
pub struct Identifier<T> {
    pub name: String,
    pub meta: T,
}

/// Whether `copy` is a copy of the identifier `a`: the same name, with a
/// clone of the metadata.
pub open spec fn identifier_copied<T: Clone>(a: Identifier<T>, copy: Identifier<T>) -> bool {
    copy.name == a.name && cloned(a.meta, copy.meta)
}

impl<T: Clone> Clone for Identifier<T> {
    fn clone(&self) -> (r: Self)
        ensures
            identifier_copied(*self, r),
    {
        Identifier { name: self.name.clone(), meta: self.meta.clone() }
    }
}

impl WithPos for Identifier<Span> {
    fn with_pos(self, pos: Span) -> (r: Self)
        ensures
            r.name == self.name,
            r.meta == pos,
    {
        Identifier { name: self.name, meta: pos }
    }
}

/// An expression. So far the only expression is a variable.
#[derive(Debug)]
pub enum Expression<T> {
    Variable { identifier: Identifier<T> },
}

/// Whether `copy` is a copy of the expression `a`: the same variable, with a
/// clone of the metadata.
pub open spec fn expression_copied<T: Clone>(a: Expression<T>, copy: Expression<T>) -> bool {
    match (a, copy) {
        (Expression::Variable { identifier: x }, Expression::Variable { identifier: y }) => {
            identifier_copied(x, y)
        },
    }
}

impl<T: Clone> Clone for Expression<T> {
    fn clone(&self) -> (r: Self)
        ensures
            expression_copied(*self, r),
    {
        match self {
            Expression::Variable { identifier } => Expression::Variable {
                identifier: identifier.clone(),
            },
        }
    }
}

/// An argument of an attribute, given by position or by name.
#[derive(Debug)]
pub enum AttributeArgument<T> {
    Positional { expression: Expression<T> },
    Named { name: Identifier<T>, expression: Expression<T> },
}

/// Whether `copy` is a copy of the argument `a`: given in the same way, with
/// a copy of the name where it has one, and a copy of the expression.
pub open spec fn argument_copied<T: Clone>(
    a: AttributeArgument<T>,
    copy: AttributeArgument<T>,
) -> bool {
    match (a, copy) {
        (
            AttributeArgument::Positional { expression: x },
            AttributeArgument::Positional { expression: y },
        ) => expression_copied(x, y),
        (
            AttributeArgument::Named { name: n, expression: x },
            AttributeArgument::Named { name: m, expression: y },
        ) => identifier_copied(n, m) && expression_copied(x, y),
        _ => false,
    }
}

impl<T: Clone> Clone for AttributeArgument<T> {
    fn clone(&self) -> (r: Self)
        ensures
            argument_copied(*self, r),
    {
        match self {
            AttributeArgument::Positional { expression } => AttributeArgument::Positional {
                expression: expression.clone(),
            },
            AttributeArgument::Named { name, expression } => AttributeArgument::Named {
                name: name.clone(),
                expression: expression.clone(),
            },
        }
    }
}

/// An attribute: its name and its arguments.
#[derive(Debug)]
pub struct Attribute<T> {
    pub name: Identifier<T>,
    pub args: Vec<AttributeArgument<T>>,
}

/// Whether `copy` is a copy of the attribute `a`: a copy of the name, and a
/// copy of each argument, in order.
pub open spec fn attribute_copied<T: Clone>(a: Attribute<T>, copy: Attribute<T>) -> bool {
    &&& identifier_copied(a.name, copy.name)
    &&& copy.args@.len() == a.args@.len()
    &&& forall|i: int|
        0 <= i < a.args@.len() ==> argument_copied(a.args@[i], #[trigger] copy.args@[i])
}

impl<T: Clone> Clone for Attribute<T> {
    fn clone(&self) -> (r: Self)
        ensures
            attribute_copied(*self, r),
    {
        let mut args: Vec<AttributeArgument<T>> = Vec::new();
        let mut i: usize = 0;
        while i < self.args.len()
            invariant
                i <= self.args.len(),
                args@.len() == i,
                forall|j: int| 0 <= j < i ==> argument_copied(self.args@[j], #[trigger] args@[j]),
            decreases self.args.len() - i,
        {
            args.push(self.args[i].clone());
            i += 1;
        }
        Attribute { name: self.name.clone(), args }
    }
}

/// A copy of a list of attributes.
fn clone_attributes<T: Clone>(attributes: &Vec<Attribute<T>>) -> (r: Vec<Attribute<T>>)
    ensures
        r@.len() == attributes@.len(),
        forall|i: int|
            0 <= i < attributes@.len() ==> attribute_copied(attributes@[i], #[trigger] r@[i]),
{
    let mut out: Vec<Attribute<T>> = Vec::new();
    let mut i: usize = 0;
    while i < attributes.len()
        invariant
            i <= attributes.len(),
            out@.len() == i,
            forall|j: int| 0 <= j < i ==> attribute_copied(attributes@[j], #[trigger] out@[j]),
        decreases attributes.len() - i,
    {
        out.push(attributes[i].clone());
        i += 1;
    }
    out
}

/// The types that the language has built in.
#[derive(Copy, Debug, PartialEq, Eq, Structural)]
pub enum BuiltinType {
    Int,
    String,
    Float,
    Bool,
    Image,
    Audio,
}

impl Clone for BuiltinType {
    fn clone(&self) -> (r: Self)
        ensures
            r == *self,
    {
        *self
    }
}

/// The builtin type that a name stands for, if it stands for one.
pub open spec fn builtin_of(name: Seq<char>) -> Option<BuiltinType> {
    if name == "int"@ {
        Some(BuiltinType::Int)
    } else if name == "float"@ {
        Some(BuiltinType::Float)
    } else if name == "bool"@ {
        Some(BuiltinType::Bool)
    } else if name == "string"@ {
        Some(BuiltinType::String)
    } else if name == "image"@ {
        Some(BuiltinType::Image)
    } else if name == "audio"@ {
        Some(BuiltinType::Audio)
    } else {
        None
    }
}

impl BuiltinType {
    /// The builtin type that `s` stands for, if it stands for one.
    pub fn lookup(s: &str) -> (r: Option<BuiltinType>)
        ensures
            r == builtin_of(s@),
    {
        if str_eq(s, "int") {
            Some(BuiltinType::Int)
        } else if str_eq(s, "float") {
            Some(BuiltinType::Float)
        } else if str_eq(s, "bool") {
            Some(BuiltinType::Bool)
        } else if str_eq(s, "string") {
            Some(BuiltinType::String)
        } else if str_eq(s, "image") {
            Some(BuiltinType::Image)
        } else if str_eq(s, "audio") {
            Some(BuiltinType::Audio)
        } else {
            None
        }
    }

    /// The builtin type that `s` stands for. The name must be that of a
    /// builtin type, as it is wherever a parser has taken it for one.
    pub fn from_str(s: &str) -> (r: Result<BuiltinType, String>)
        requires
            builtin_of(s@) is Some,
        ensures
            r matches Ok(t) && Some(t) == builtin_of(s@),
    {
        match BuiltinType::lookup(s) {
            Some(t) => Ok(t),
            None => Err(String::new()),
        }
    }
}

impl std::str::FromStr for BuiltinType {
    type Err = String;

    /// The builtin type that `s` stands for; the name itself comes back
    /// where it stands for none.
    fn from_str(s: &str) -> (r: Result<BuiltinType, String>)
        ensures
            match r {
                Ok(t) => builtin_of(s@) == Some(t),
                Err(name) => builtin_of(s@) is None && name@ == s@,
            },
    {
        match BuiltinType::lookup(s) {
            Some(t) => Ok(t),
            None => Err(s.to_owned()),
        }
    }
}

/// A type as it is written, with the metadata of each of its parts.
#[derive(Debug)]
pub enum Type<T> {
    Builtin { builtin_type: BuiltinType, meta: T },
    UserDefined { name: Identifier<T> },
    Option { base_type: Box<Type<T>>, meta: T },
    List { base_type: Box<Type<T>>, meta: T },
    Union { variants: Vec<Type<T>>, meta: T },
    WithAttributes { base_type: Box<Type<T>>, attributes: Vec<Attribute<T>>, meta: T },
    Error { meta: T },
}

/// Whether `copy` is a copy of the type `t`: a type of the same form, with
/// the same builtin type or a copy of the name, copies of the types and
/// attributes inside it, in order, and a clone of the metadata.
pub open spec fn type_copied<T: Clone>(t: Type<T>, copy: Type<T>) -> bool
    decreases t,
{
    match (t, copy) {
        (
            Type::Builtin { builtin_type: a, meta: m },
            Type::Builtin { builtin_type: b, meta: n },
        ) => a == b && cloned(m, n),
        (Type::UserDefined { name: a }, Type::UserDefined { name: b }) => identifier_copied(a, b),
        (Type::Option { base_type: a, meta: m }, Type::Option { base_type: b, meta: n }) => {
            type_copied(*a, *b) && cloned(m, n)
        },
        (Type::List { base_type: a, meta: m }, Type::List { base_type: b, meta: n }) => {
            type_copied(*a, *b) && cloned(m, n)
        },
        (Type::Union { variants: a, meta: m }, Type::Union { variants: b, meta: n }) => {
            &&& b@.len() == a@.len()
            &&& forall|i: int| 0 <= i < a@.len() ==> type_copied(a@[i], #[trigger] b@[i])
            &&& cloned(m, n)
        },
        (
            Type::WithAttributes { base_type: a, attributes: x, meta: m },
            Type::WithAttributes { base_type: b, attributes: y, meta: n },
        ) => {
            &&& type_copied(*a, *b)
            &&& y@.len() == x@.len()
            &&& forall|i: int| 0 <= i < x@.len() ==> attribute_copied(x@[i], #[trigger] y@[i])
            &&& cloned(m, n)
        },
        (Type::Error { meta: m }, Type::Error { meta: n }) => cloned(m, n),
        _ => false,
    }
}

/// A copy of a list of types.
fn clone_types<T: Clone>(types: &Vec<Type<T>>) -> (r: Vec<Type<T>>)
    ensures
        r@.len() == types@.len(),
        forall|i: int| 0 <= i < types@.len() ==> type_copied(types@[i], #[trigger] r@[i]),
    decreases types,
{
    let mut out: Vec<Type<T>> = Vec::new();
    let mut i: usize = 0;
    while i < types.len()
        invariant
            i <= types.len(),
            out@.len() == i,
            forall|j: int| 0 <= j < i ==> type_copied(types@[j], #[trigger] out@[j]),
        decreases types.len() - i,
    {
        out.push(clone_type(&types[i]));
        i += 1;
    }
    out
}

/// A copy of a type.
fn clone_type<T: Clone>(t: &Type<T>) -> (r: Type<T>)
    ensures
        type_copied(*t, r),
    decreases t,
{
    match t {
        Type::Builtin { builtin_type, meta } => Type::Builtin {
            builtin_type: *builtin_type,
            meta: meta.clone(),
        },
        Type::UserDefined { name } => Type::UserDefined { name: name.clone() },
        Type::Option { base_type, meta } => Type::Option {
            base_type: Box::new(clone_type(base_type)),
            meta: meta.clone(),
        },
        Type::List { base_type, meta } => Type::List {
            base_type: Box::new(clone_type(base_type)),
            meta: meta.clone(),
        },
        Type::Union { variants, meta } => Type::Union {
            variants: clone_types(variants),
            meta: meta.clone(),
        },
        Type::WithAttributes { base_type, attributes, meta } => Type::WithAttributes {
            base_type: Box::new(clone_type(base_type)),
            attributes: clone_attributes(attributes),
            meta: meta.clone(),
        },
        Type::Error { meta } => Type::Error { meta: meta.clone() },
    }
}

impl<T: Clone> Clone for Type<T> {
    fn clone(&self) -> (r: Self)
        ensures
            type_copied(*self, r),
    {
        clone_type(self)
    }
}

/// `t` at the position `pos`: the same type, with the metadata of its
/// outermost part replaced.
pub open spec fn type_at(t: Type<Span>, pos: Span) -> Type<Span> {
    match t {
        Type::Builtin { builtin_type, .. } => Type::Builtin { builtin_type, meta: pos },
        Type::UserDefined { name } => Type::UserDefined {
            name: Identifier { name: name.name, meta: pos },
        },
        Type::Option { base_type, .. } => Type::Option { base_type, meta: pos },
        Type::List { base_type, .. } => Type::List { base_type, meta: pos },
        Type::Union { variants, .. } => Type::Union { variants, meta: pos },
        Type::WithAttributes { base_type, attributes, .. } => Type::WithAttributes {
            base_type,
            attributes,
            meta: pos,
        },
        Type::Error { .. } => Type::Error { meta: pos },
    }
}

impl WithPos for Type<Span> {
    fn with_pos(self, pos: Span) -> (r: Self)
        ensures
            r == type_at(self, pos),
    {
        match self {
            Type::Builtin { builtin_type, .. } => Type::Builtin { builtin_type, meta: pos },
            Type::UserDefined { name } => Type::UserDefined { name: name.with_pos(pos) },
            Type::Option { base_type, .. } => Type::Option { base_type, meta: pos },
            Type::List { base_type, .. } => Type::List { base_type, meta: pos },
            Type::Union { variants, .. } => Type::Union { variants, meta: pos },
            Type::WithAttributes { base_type, attributes, .. } => Type::WithAttributes {
                base_type,
                attributes,
                meta: pos,
            },
            Type::Error { .. } => Type::Error { meta: pos },
        }
    }
}

/// A field of a class: its name and its type.
#[derive(Clone, Debug)]
pub struct Field<T> {
    pub name: Identifier<T>,
    pub field_type: Type<T>,
    pub meta: T,
}

impl WithPos for Field<Span> {
    fn with_pos(self, pos: Span) -> (r: Self)
        ensures
            r.name == self.name,
            r.field_type == self.field_type,
            r.meta == pos,
    {
        Field { name: self.name, field_type: self.field_type, meta: pos }
    }
}

/// A class: its name and its fields.
#[derive(Clone, Debug)]
pub struct Class<T> {
    pub name: Identifier<T>,
    pub fields: Vec<Field<T>>,
    pub meta: T,
}

impl WithPos for Class<Span> {
    fn with_pos(self, pos: Span) -> (r: Self)
        ensures
            r.name == self.name,
            r.fields == self.fields,
            r.meta == pos,
    {
        Class { name: self.name, fields: self.fields, meta: pos }
    }
}

} // verus!
