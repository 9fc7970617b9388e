//! Coercion into enums.

use vstd::prelude::*;
use crate::coercer::outcome_view;
use crate::coercer::semantics;
use crate::coercer::semantics::{is_aliased, is_named};
use crate::context::ParsingContext;
use crate::error::{ErrorKind, ParsingError};
use crate::field_type::FieldType;
use crate::flags::DeserializerConditions;
use crate::lookup::{first_from, first_index};
use crate::schema::EnumDescriptor;
use crate::text::str_eq;
use crate::typed::BamlValueWithFlags;
use crate::value::{Value, ValueShape};

verus! {

/// The member of `e` that the text `s` names: the first member that is not
/// skipped and has this name; failing that, the first that is not skipped
/// and has this alias.
pub fn find_member<'a>(e: &'a EnumDescriptor, s: &str) -> (r: Option<&'a String>)
    ensures
        match r {
            Some(member) => semantics::enum_member(e@, s@) == Some(member@),
            None => semantics::enum_member(e@, s@) is None,
        },
{
    let ghost by_name = is_named(s@);
    let mut i: usize = 0;
    while i < e.values.len()
        invariant
            i <= e.values.len(),
            by_name == is_named(s@),
            first_index(e@.values, by_name) == first_from(e@.values, by_name, i as int),
        decreases e.values.len() - i,
    {
        assert(e@.values[i as int] == e.values@[i as int]@);
        let member = &e.values[i];
        if !member.skip && str_eq(member.name.name.as_str(), s) {
            return Some(&member.name.name);
        }
        i += 1;
    }
    let ghost by_alias = is_aliased(s@);
    let mut j: usize = 0;
    while j < e.values.len()
        invariant
            j <= e.values.len(),
            by_name == is_named(s@),
            first_index(e@.values, by_name) is None,
            by_alias == is_aliased(s@),
            first_index(e@.values, by_alias) == first_from(e@.values, by_alias, j as int),
        decreases e.values.len() - j,
    {
        assert(e@.values[j as int] == e.values@[j as int]@);
        let member = &e.values[j];
        if !member.skip {
            match &member.name.alias {
                Some(alias) => {
                    if str_eq(alias.as_str(), s) {
                        return Some(&member.name.name);
                    }
                },
                None => {},
            }
        }
        j += 1;
    }
    None
}

/// Coerces a value into the enum of the given name.
///
/// The enum must be in the schema, the value must be a text, and the text
/// must be the name or the alias of a member that is not skipped.
pub fn coerce_enum(ctx: &ParsingContext, target: &FieldType, name: &str, value: &Value) -> (r:
    Result<BamlValueWithFlags, ParsingError>)
    ensures
        outcome_view(r) == semantics::coerce_enum(ctx.schema@, ctx@, target@, name@, value@),
{
    match ctx.schema.find_enum(name) {
        None => Err(ctx.error(ErrorKind::UnknownType, target, Some(value.shape()))),
        Some(e) => match value {
            Value::String(s) => match find_member(e, s.as_str()) {
                Some(member) => Ok(
                    BamlValueWithFlags::Enum(
                        e.name.name.clone(),
                        DeserializerConditions::new(),
                        member.clone(),
                    ),
                ),
                None => Err(ctx.error(ErrorKind::NoMatch, target, Some(ValueShape::String))),
            },
            _ => Err(ctx.error_unexpected_type(target, value)),
        },
    }
}

} // verus!
