//! Coercion of loosely typed values into target types.

use vstd::prelude::*;
use crate::context::ParsingContext;
use crate::error::ParsingError;
use crate::field_type::FieldType;
use crate::flags::{DeserializerConditions, Flag, FlagModel};
use crate::typed::{BamlValueWithFlags, TypedModel};
use crate::value::{Value, ValueModel};

pub mod class_laws;
pub mod coerce_class;
pub mod conformance;
pub mod coerce_list;
pub mod coerce_map;
pub mod coerce_union;
pub mod enums;
pub mod idempotence;
pub mod key_laws;
pub mod list_laws;
pub mod map_key;
pub mod map_laws;
pub mod primitive;
pub mod semantics;
pub mod union_laws;

verus! {

/// The mathematical value of the result of a coercion.
pub open spec fn outcome_view(r: Result<BamlValueWithFlags, ParsingError>) -> semantics::Outcome {
    match r {
        Ok(t) => Ok(t@),
        Err(e) => Err(e@),
    }
}

/// The mathematical value of a value that may be absent.
pub open spec fn value_view(value: Option<&Value>) -> Option<ValueModel> {
    match value {
        Some(v) => Some(v@),
        None => None,
    }
}

/// Coerces a value that may be absent into a target type.
///
/// A value recovered from a fenced block is coerced as the value inside the
/// block, and the result is flagged. The rest is decided by the shape of
/// the target type.
pub fn coerce(ctx: &ParsingContext, target: &FieldType, value: Option<&Value>) -> (r: Result<
    BamlValueWithFlags,
    ParsingError,
>)
    ensures
        outcome_view(r) == semantics::coerce(ctx.schema@, ctx@, target@, value_view(value)),
    decreases semantics::fuel(ctx@), target, 3nat,
{
    match value {
        Some(Value::Markdown(_, inner)) => match coerce_bare(ctx, target, Some(inner.bare())) {
            Ok(t) => Ok(t.add_flag(Flag::ObjectFromMarkdown)),
            Err(e) => Err(e),
        },
        _ => coerce_bare(ctx, target, value),
    }
}

/// Coerces a value that is not marked as recovered from a fenced block.
///
/// Constraint wrappers are looked through. An optional type takes absence
/// and null as null, and turns a value that its inner type cannot take into
/// null, each with a flag. Every other type fails on absence as an
/// unexpected null, and else coerces the value by its own rules.
pub fn coerce_bare(ctx: &ParsingContext, target: &FieldType, value: Option<&Value>) -> (r: Result<
    BamlValueWithFlags,
    ParsingError,
>)
    ensures
        outcome_view(r) == semantics::coerce_bare(ctx.schema@, ctx@, target@, value_view(value)),
    decreases semantics::fuel(ctx@), target, 2nat,
{
    match target {
        FieldType::Constrained { base, .. } => coerce_bare(ctx, base, value),
        FieldType::Optional(inner) => match value {
            None => Ok(absent_optional()),
            Some(Value::Null) => Ok(absent_optional()),
            Some(v) => match coerce_bare(ctx, inner, Some(v)) {
                Ok(t) => Ok(t),
                Err(e) => {
                    let mut flags = DeserializerConditions::new();
                    flags.add_flag(Flag::DefaultButHadUnparseableValue(e));
                    assert(flags@ =~= seq![FlagModel::DefaultButHadUnparseableValue(e@)]);
                    Ok(BamlValueWithFlags::Null(flags))
                },
            },
        },
        _ => match value {
            None => Err(ctx.error_unexpected_null(target)),
            Some(v) => match target {
                FieldType::Primitive(p) => primitive::coerce_primitive(ctx, target, *p, v),
                FieldType::Literal(literal) => primitive::coerce_literal(ctx, target, literal, v),
                FieldType::Enum(name) => enums::coerce_enum(ctx, target, name.as_str(), v),
                FieldType::Class(_) => coerce_class::coerce_class(ctx, target, v),
                FieldType::List(_) => coerce_list::coerce_list(ctx, target, v),
                FieldType::MapOf(_, _) => coerce_map::coerce_map(ctx, target, Some(v)),
                FieldType::Union(_) => coerce_union::coerce_union(ctx, target, v),
                FieldType::Tuple(_) => coerce_list::coerce_tuple(ctx, target, v),
                _ => Err(ctx.error_unexpected_type(target, v)),
            },
        },
    }
}

/// The null that stands for an optional value that is absent or null.
fn absent_optional() -> (r: BamlValueWithFlags)
    ensures
        r@ == TypedModel::Null(seq![FlagModel::OptionalDefaultFromNoValue]),
{
    let mut flags = DeserializerConditions::new();
    flags.add_flag(Flag::OptionalDefaultFromNoValue);
    assert(flags@ =~= seq![FlagModel::OptionalDefaultFromNoValue]);
    BamlValueWithFlags::Null(flags)
}

} // verus!
