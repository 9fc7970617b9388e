//! Coercion into map types.

use indexmap::IndexMap;
use vstd::prelude::*;
use crate::coercer::map_key::check_key_type;
use crate::coercer::semantics;
use crate::coercer::{coerce, outcome_view, value_view};
use crate::context::ParsingContext;
use crate::error::ParsingError;
use crate::field_type::FieldType;
use crate::flags::{DeserializerConditions, Flag, FlagModel};

use crate::typed::{typed_entries_model, BamlValueWithFlags, TypedModel};
use crate::value::{entries_model, Value};

verus! {

/// The entries of a map from keys to coerced values, in insertion order.
pub uninterp spec fn coerced_entries(
    m: IndexMap<String, (DeserializerConditions, BamlValueWithFlags)>,
) -> Seq<(Seq<char>, (Seq<FlagModel>, TypedModel))>;

/// An empty map, by `IndexMap::new`.
#[verifier::external_body]
fn entries_new() -> (r: IndexMap<String, (DeserializerConditions, BamlValueWithFlags)>)
    ensures
        coerced_entries(r) == Seq::<(Seq<char>, (Seq<FlagModel>, TypedModel))>::empty(),
{
    IndexMap::new()
}

/// Puts a value under a key, by `IndexMap::insert`: where the map has the
/// key, the value takes the place of the one that was there and the entry
/// keeps its position; where it has not, the entry goes to the end.
#[verifier::external_body]
fn entries_insert(
    m: &mut IndexMap<String, (DeserializerConditions, BamlValueWithFlags)>,
    key: String,
    value: (DeserializerConditions, BamlValueWithFlags),
)
    ensures
        coerced_entries(*final(m)) == semantics::insert_entry(
            coerced_entries(*old(m)),
            key@,
            (value.0@, value.1@),
        ),
{
    m.insert(key, value);
}

/// The entries of a map as a list, by `IndexMap::into_iter`: every entry, in
/// insertion order.
#[verifier::external_body]
fn entries_into_pairs(m: IndexMap<String, (DeserializerConditions, BamlValueWithFlags)>) -> (r:
    Vec<(String, (DeserializerConditions, BamlValueWithFlags))>)
    ensures
        typed_entries_model(r@) == coerced_entries(m),
{
    m.into_iter().collect()
}

/// Coerces a value that may be absent into a map type.
///
/// The call fails as an unexpected null where the value is absent, and as an
/// unexpected type where the target is no map type. Then the key type is
/// checked, once and before any entry is looked at: a key type that is not
/// supported, or a union of literals of more than one kind, makes the call
/// fail. Then a value that is no object fails as an unexpected type, and an
/// object succeeds: each entry is handled by itself. Its value is coerced
/// into the value type under a scope named by its key; if that fails, the
/// entry is dropped and flagged with the key and the failure. Else its key,
/// as a text, is coerced into the key type; if that fails, the entry is
/// dropped and flagged with its position and the failure. An entry that
/// passes both is put into an insertion-ordered map under its key, and the
/// surviving entries keep the order of the object. The map is flagged with the object it was
/// read from.
pub fn coerce_map(ctx: &ParsingContext, map_target: &FieldType, value: Option<&Value>) -> (r:
    Result<BamlValueWithFlags, ParsingError>)
    ensures
        outcome_view(r) == semantics::coerce_map(
            ctx.schema@,
            ctx@,
            map_target@,
            value_view(value),
        ),
    decreases semantics::fuel(ctx@), map_target, 1nat,
{
    let value = match value {
        Some(v) => v,
        None => {
            return Err(ctx.error_unexpected_null(map_target));
        },
    };
    let (key_type, value_type) = match map_target {
        FieldType::MapOf(key_type, value_type) => (key_type, value_type),
        _ => {
            return Err(ctx.error_unexpected_type(map_target, value));
        },
    };
    match check_key_type(ctx, key_type) {
        Err(e) => {
            return Err(e);
        },
        Ok(_) => {},
    }
    let mut flags = DeserializerConditions::new();
    flags.add_flag(Flag::ObjectToMap(value.clone()));
    match value {
        Value::Object(entries) => {
            let mut items = entries_new();
            let mut index: usize = 0;
            assert(flags@ =~= seq![FlagModel::ObjectToMap(value@)] + Seq::empty());
            while index < entries.len()
                invariant
                    index <= entries.len(),
                    map_target matches FieldType::MapOf(k, v) && k == key_type && v == value_type,
                    coerced_entries(items) == semantics::map_entries(
                        ctx.schema@,
                        ctx@,
                        map_target@,
                        entries_model(entries@),
                        index as nat,
                    ).0,
                    flags@ == seq![FlagModel::ObjectToMap(value@)] + semantics::map_entries(
                        ctx.schema@,
                        ctx@,
                        map_target@,
                        entries_model(entries@),
                        index as nat,
                    ).1,
                decreases entries.len() - index,
            {
                let entry = &entries[index];
                let key = &entry.0;
                assert(entries_model(entries@)[index as int] == (entry.0@, entry.1@));
                let ghost earlier = semantics::map_entries(
                    ctx.schema@,
                    ctx@,
                    map_target@,
                    entries_model(entries@),
                    index as nat,
                );
                let inner = ctx.enter_scope(key.as_str());
                match coerce(&inner, value_type, Some(&entry.1)) {
                    Err(e) => {
                        flags.add_flag(Flag::MapValueParseError(key.clone(), e));
                        assert(flags@ =~= seq![FlagModel::ObjectToMap(value@)] + earlier.1.push(
                            FlagModel::MapValueParseError(key@, e@),
                        ));
                    },
                    Ok(coerced) => {
                        let key_as_value = Value::String(key.clone());
                        match coerce(ctx, key_type, Some(&key_as_value)) {
                            Ok(_) => {
                                entries_insert(
                                    &mut items,
                                    key.clone(),
                                    (DeserializerConditions::new(), coerced),
                                );
                            },
                            Err(e) => {
                                flags.add_flag(Flag::MapKeyParseError(index, e));
                                assert(flags@ =~= seq![FlagModel::ObjectToMap(value@)]
                                    + earlier.1.push(FlagModel::MapKeyParseError(index, e@)));
                            },
                        }
                    },
                }
                index += 1;
            }
            Ok(BamlValueWithFlags::MapOf(flags, entries_into_pairs(items)))
        },
        _ => Err(ctx.error_unexpected_type(map_target, value)),
    }
}

} // verus!
