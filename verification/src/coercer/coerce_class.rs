//! Coercion into classes.

use vstd::prelude::*;
use crate::coercer::semantics;
use crate::coercer::{coerce, outcome_view, value_view};
use crate::context::{enter_class, ParsingContext};
use crate::error::{ErrorKind, ParsingError};
use crate::field_type::FieldType;
use crate::flags::{DeserializerConditions, Flag};
use crate::lookup::{first_from, first_index, key_index, is_under};
use crate::schema::FieldDescriptor;
use crate::text::str_eq;
use crate::typed::{lemma_typed_fields_push, typed_fields_model, BamlValueWithFlags};
use crate::value::{entries_model, Value, ValueModel};

verus! {

/// The position of the first entry under `key`, if there is one.
pub fn find_entry(entries: &Vec<(String, Value)>, key: &str) -> (r: Option<usize>)
    ensures
        match r {
            Some(i) => key_index(entries_model(entries@), key@) == Some(i as int) && i
                < entries.len(),
            None => key_index(entries_model(entries@), key@) is None,
        },
{
    let ghost wanted = is_under::<ValueModel>(key@);
    let mut i: usize = 0;
    while i < entries.len()
        invariant
            i <= entries.len(),
            wanted == is_under::<ValueModel>(key@),
            first_index(entries_model(entries@), wanted) == first_from(
                entries_model(entries@),
                wanted,
                i as int,
            ),
        decreases entries.len() - i,
    {
        assert(entries_model(entries@)[i as int].0 == entries@[i as int].0@);
        if str_eq(entries[i].0.as_str(), key) {
            return Some(i);
        }
        i += 1;
    }
    None
}

/// The value that an object holds for a field: that of the first entry under
/// the field's name; failing that, of the first entry under its alias.
pub fn lookup_field<'a>(entries: &'a Vec<(String, Value)>, field: &FieldDescriptor) -> (r: Option<
    &'a Value,
>)
    ensures
        value_view(r) == semantics::lookup_field(entries_model(entries@), field@),
{
    match find_entry(entries, field.name.name.as_str()) {
        Some(i) => {
            assert(entries_model(entries@)[i as int].1 == entries@[i as int].1@);
            Some(&entries[i].1)
        },
        None => match &field.name.alias {
            Some(alias) => match find_entry(entries, alias.as_str()) {
                Some(i) => {
                    assert(entries_model(entries@)[i as int].1 == entries@[i as int].1@);
                    Some(&entries[i].1)
                },
                None => None,
            },
            None => None,
        },
    }
}

/// Coerces a value into a class.
///
/// The class must be in the schema, the value must be an object, and fewer
/// than the admitted number of classes may be in progress in this branch.
/// Then the call succeeds: for each declared field, in declaration order,
/// the object's value under the field's name or alias is coerced into the
/// field's type, under a scope named by the field. A field whose coercion
/// succeeds is in the result, so an optional field that is missing is there
/// as null. A field that is missing without being optional, or whose value
/// cannot be coerced, is left out and flagged with its failure.
pub fn coerce_class(ctx: &ParsingContext, target: &FieldType, value: &Value) -> (r: Result<
    BamlValueWithFlags,
    ParsingError,
>)
    ensures
        outcome_view(r) == semantics::coerce_class(ctx.schema@, ctx@, target@, value@),
    decreases semantics::fuel(ctx@), target, 1nat,
{
    match target {
        FieldType::Class(name) => {
            if ctx.depth() >= ctx.limit {
                return Err(ctx.error(ErrorKind::RecursionLimit, target, Some(value.shape())));
            }
            match ctx.schema.find_class(name.as_str()) {
                None => Err(ctx.error(ErrorKind::UnknownType, target, Some(value.shape()))),
                Some(class) => match value {
                    Value::Object(entries) => {
                        let class_ctx = ctx.enter_class(class.name.name.as_str());
                        let mut fields: Vec<(String, BamlValueWithFlags)> = Vec::new();
                        let mut flags = DeserializerConditions::new();
                        let mut i: usize = 0;
                        assert(typed_fields_model(fields@) =~= Seq::empty());
                        while i < class.fields.len()
                            invariant
                                i <= class.fields.len(),
                                semantics::fuel(ctx@) > 0,
                                class_ctx@ == enter_class(ctx@, class@.name),
                                class_ctx.schema == ctx.schema,
                                (typed_fields_model(fields@), flags@) == semantics::class_fields(
                                    ctx.schema@,
                                    ctx@,
                                    target@,
                                    class@,
                                    entries_model(entries@),
                                    i as nat,
                                ),
                            decreases class.fields.len() - i,
                        {
                            let field = &class.fields[i];
                            assert(class@.fields[i as int] == field@);
                            let inner = class_ctx.enter_scope(field.name.name.as_str());
                            let found = lookup_field(entries, field);
                            match coerce(&inner, &field.field_type, found) {
                                Ok(t) => {
                                    let entry = (field.name.name.clone(), t);
                                    proof {
                                        lemma_typed_fields_push(fields@, entry);
                                    }
                                    fields.push(entry);
                                },
                                Err(e) => {
                                    let reported = if found.is_none() {
                                        inner.error(
                                            ErrorKind::MissingRequiredField,
                                            &field.field_type,
                                            None,
                                        )
                                    } else {
                                        e
                                    };
                                    flags.add_flag(
                                        Flag::FieldParseError(field.name.name.clone(), reported),
                                    );
                                },
                            }
                            i += 1;
                        }
                        Ok(BamlValueWithFlags::Class(class.name.name.clone(), flags, fields))
                    },
                    _ => Err(ctx.error_unexpected_type(target, value)),
                },
            }
        },
        _ => Err(ctx.error_unexpected_type(target, value)),
    }
}

} // verus!
