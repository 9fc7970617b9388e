//! Coercion into primitive and literal types.

use vstd::prelude::*;
use crate::coercer::outcome_view;
use crate::coercer::semantics;
use crate::context::ParsingContext;
use crate::error::ParsingError;
use crate::field_type::{FieldType, LiteralValue, TypeValue};
use crate::flags::{DeserializerConditions, Flag};
use crate::text::{
    chars_of, i64_to_string, normalize_bounds, parse_int_chars, range_eq, spells_decimal, str_eq,
    trim_bounds,
};
use crate::typed::BamlValueWithFlags;
use crate::value::{Number, Value};

verus! {

/// Coerces a value into a primitive type.
///
/// A text is taken by the string type alone, except that the integer type
/// takes a text that spells an integer, with a flag. A number is taken by
/// the type of its kind, a decimal number only where its text spells one,
/// and an integer by the float type too, with a flag. Nothing is coerced
/// into a media type.
pub fn coerce_primitive(
    ctx: &ParsingContext,
    target: &FieldType,
    primitive: TypeValue,
    value: &Value,
) -> (r: Result<BamlValueWithFlags, ParsingError>)
    ensures
        outcome_view(r) == semantics::coerce_primitive(ctx@, target@, primitive, value@),
{
    match primitive {
        TypeValue::String => match value {
            Value::String(s) => Ok(
                BamlValueWithFlags::String(DeserializerConditions::new(), s.clone()),
            ),
            _ => Err(ctx.error_unexpected_type(target, value)),
        },
        TypeValue::Int => match value {
            Value::Number(Number::Int(n)) => Ok(
                BamlValueWithFlags::Int(DeserializerConditions::new(), *n),
            ),
            Value::String(s) => {
                let chars = chars_of(s.as_str());
                let (from, to) = trim_bounds(&chars);
                match parse_int_chars(&chars, from, to) {
                    Some(n) => {
                        let mut conditions = DeserializerConditions::new();
                        conditions.add_flag(Flag::StringToInt(s.clone()));
                        assert(conditions@ =~= seq![Flag::StringToInt(*s)@]);
                        Ok(BamlValueWithFlags::Int(conditions, n))
                    },
                    None => Err(ctx.error_unexpected_type(target, value)),
                }
            },
            _ => Err(ctx.error_unexpected_type(target, value)),
        },
        TypeValue::Float => match value {
            Value::Number(Number::Float(text)) => {
                if spells_decimal(text.as_str()) {
                    Ok(BamlValueWithFlags::Float(DeserializerConditions::new(), text.clone()))
                } else {
                    Err(ctx.error_unexpected_type(target, value))
                }
            },
            Value::Number(Number::Int(n)) => {
                let mut conditions = DeserializerConditions::new();
                conditions.add_flag(Flag::IntToFloat(*n));
                assert(conditions@ =~= seq![Flag::IntToFloat(*n)@]);
                Ok(BamlValueWithFlags::Float(conditions, i64_to_string(*n)))
            },
            _ => Err(ctx.error_unexpected_type(target, value)),
        },
        TypeValue::Bool => match value {
            Value::Bool(b) => Ok(BamlValueWithFlags::Bool(DeserializerConditions::new(), *b)),
            _ => Err(ctx.error_unexpected_type(target, value)),
        },
        TypeValue::Null => match value {
            Value::Null => Ok(BamlValueWithFlags::Null(DeserializerConditions::new())),
            _ => Err(ctx.error_unexpected_type(target, value)),
        },
        TypeValue::Media(_) => Err(ctx.error_unexpected_type(target, value)),
    }
}

/// Coerces a value into a literal type: the value must be the literal.
///
/// A text may differ from a string literal by blanks and one pair of double
/// quotes around it. An integer literal is matched by whatever the integer
/// type takes for that integer. Any other value fails as an unexpected type.
pub fn coerce_literal(
    ctx: &ParsingContext,
    target: &FieldType,
    literal: &LiteralValue,
    value: &Value,
) -> (r: Result<BamlValueWithFlags, ParsingError>)
    ensures
        outcome_view(r) == semantics::coerce_literal(ctx@, target@, literal@, value@),
{
    match literal {
        LiteralValue::String(text) => match value {
            Value::String(s) => {
                let mut same = str_eq(s.as_str(), text.as_str());
                if !same {
                    let chars = chars_of(s.as_str());
                    let (from, to) = normalize_bounds(&chars);
                    let wanted = chars_of(text.as_str());
                    same = range_eq(&chars, from, to, &wanted);
                }
                if same {
                    Ok(BamlValueWithFlags::String(DeserializerConditions::new(), text.clone()))
                } else {
                    Err(ctx.error_unexpected_type(target, value))
                }
            },
            _ => Err(ctx.error_unexpected_type(target, value)),
        },
        LiteralValue::Int(n) => match coerce_primitive(ctx, target, TypeValue::Int, value) {
            Ok(BamlValueWithFlags::Int(conditions, m)) => {
                if m == *n {
                    Ok(BamlValueWithFlags::Int(conditions, m))
                } else {
                    Err(ctx.error_unexpected_type(target, value))
                }
            },
            _ => Err(ctx.error_unexpected_type(target, value)),
        },
        LiteralValue::Bool(b) => match value {
            Value::Bool(x) => {
                if *x == *b {
                    Ok(BamlValueWithFlags::Bool(DeserializerConditions::new(), *b))
                } else {
                    Err(ctx.error_unexpected_type(target, value))
                }
            },
            _ => Err(ctx.error_unexpected_type(target, value)),
        },
    }
}

} // verus!
