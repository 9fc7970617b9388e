//! Coercion into list and tuple types.

use vstd::prelude::*;
use crate::coercer::semantics;
use crate::coercer::{coerce, outcome_view};
use crate::context::{ContextModel, ParsingContext};
use crate::error::{ErrorModel, ParsingError};
use crate::field_type::{types_model, FieldType, TypeModel};
use crate::flags::{DeserializerConditions, Flag};
use crate::text::u64_to_string;
use crate::schema::SchemaModel;
use crate::typed::{lemma_typed_items_push, typed_items_model, BamlValueWithFlags, TypedModel};
use crate::value::{values_model, Value, ValueModel};

verus! {

/// Coerces a value into a list type.
///
/// The value must be an array. Each item is coerced into the element type
/// by itself, under a scope named by its position; an item that fails is
/// dropped and flagged with its position and its failure. The call succeeds
/// whatever the items do.
pub fn coerce_list(ctx: &ParsingContext, target: &FieldType, value: &Value) -> (r: Result<
    BamlValueWithFlags,
    ParsingError,
>)
    ensures
        outcome_view(r) == semantics::coerce_list(ctx.schema@, ctx@, target@, value@),
    decreases semantics::fuel(ctx@), target, 1nat,
{
    match target {
        FieldType::List(element) => match value {
            Value::Array(items) => {
                let mut kept: Vec<BamlValueWithFlags> = Vec::new();
                let mut flags = DeserializerConditions::new();
                let mut i: usize = 0;
                assert(typed_items_model(kept@) =~= Seq::empty());
                while i < items.len()
                    invariant
                        i <= items.len(),
                        target matches FieldType::List(own) && own == element,
                        (typed_items_model(kept@), flags@) == semantics::list_items(
                            ctx.schema@,
                            ctx@,
                            target@,
                            values_model(items@),
                            i as nat,
                        ),
                    decreases items.len() - i,
                {
                    let segment = u64_to_string(i as u64);
                    let inner = ctx.enter_scope(segment.as_str());
                    assert(values_model(items@)[i as int] == items@[i as int]@);
                    match coerce(&inner, element, Some(&items[i])) {
                        Ok(t) => {
                            proof {
                                lemma_typed_items_push(kept@, t);
                            }
                            kept.push(t);
                        },
                        Err(e) => {
                            flags.add_flag(Flag::ArrayItemParseError(i, e));
                        },
                    }
                    i += 1;
                }
                Ok(BamlValueWithFlags::List(flags, kept))
            },
            _ => Err(ctx.error_unexpected_type(target, value)),
        },
        _ => Err(ctx.error_unexpected_type(target, value)),
    }
}

/// Coerces a value into a tuple type.
///
/// The value must be an array with one item for each position of the tuple.
/// Each item is coerced into the type of its position, under a scope named
/// by the position; the first item that fails makes the call fail with the
/// item's failure.
pub fn coerce_tuple(ctx: &ParsingContext, target: &FieldType, value: &Value) -> (r: Result<
    BamlValueWithFlags,
    ParsingError,
>)
    ensures
        outcome_view(r) == semantics::coerce_tuple(ctx.schema@, ctx@, target@, value@),
    decreases semantics::fuel(ctx@), target, 1nat,
{
    match target {
        FieldType::Tuple(types) => match value {
            Value::Array(items) => {
                assert(target@ == TypeModel::Tuple(types_model(types@)));
                assert(value@ == ValueModel::Array(values_model(items@)));
                if items.len() != types.len() {
                    return Err(ctx.error_unexpected_type(target, value));
                }
                let mut done: Vec<BamlValueWithFlags> = Vec::new();
                let mut i: usize = 0;
                assert(typed_items_model(done@) =~= Seq::empty());
                while i < items.len()
                    invariant
                        i <= items.len() == types.len(),
                        target matches FieldType::Tuple(own) && own == types,
                        target@ == TypeModel::Tuple(types_model(types@)),
                        value@ == ValueModel::Array(values_model(items@)),
                        Ok::<Seq<TypedModel>, ErrorModel>(
                            typed_items_model(done@),
                        ) == semantics::tuple_items(
                            ctx.schema@,
                            ctx@,
                            target@,
                            values_model(items@),
                            i as nat,
                        ),
                        forall|n: nat|
                            i <= n <= items.len() && semantics::tuple_items(
                                ctx.schema@,
                                ctx@,
                                target@,
                                values_model(items@),
                                i as nat,
                            ) is Err ==> #[trigger] semantics::tuple_items(
                                ctx.schema@,
                                ctx@,
                                target@,
                                values_model(items@),
                                n,
                            ) is Err,
                    decreases items.len() - i,
                {
                    let segment = u64_to_string(i as u64);
                    let inner = ctx.enter_scope(segment.as_str());
                    assert(values_model(items@)[i as int] == items@[i as int]@);
                    assert(types_model(types@)[i as int] == types@[i as int]@);
                    match coerce(&inner, &types[i], Some(&items[i])) {
                        Ok(t) => {
                            proof {
                                lemma_typed_items_push(done@, t);
                            }
                            done.push(t);
                        },
                        Err(e) => {
                            proof {
                                lemma_tuple_failure_stays(
                                    ctx.schema@,
                                    ctx@,
                                    target@,
                                    values_model(items@),
                                    (i + 1) as nat,
                                    items.len() as nat,
                                );
                            }
                            return Err(e);
                        },
                    }
                    i += 1;
                }
                Ok(BamlValueWithFlags::List(DeserializerConditions::new(), done))
            },
            _ => Err(ctx.error_unexpected_type(target, value)),
        },
        _ => Err(ctx.error_unexpected_type(target, value)),
    }
}

/// Once an item of a tuple has failed, the failure is that of every longer prefix.
pub proof fn lemma_tuple_failure_stays(
    schema: SchemaModel,
    ctx: ContextModel,
    target: TypeModel,
    items: Seq<ValueModel>,
    n: nat,
    m: nat,
)
    requires
        n <= m <= items.len(),
        semantics::tuple_items(schema, ctx, target, items, n) is Err,
    ensures
        semantics::tuple_items(schema, ctx, target, items, m) == semantics::tuple_items(
            schema,
            ctx,
            target,
            items,
            n,
        ),
    decreases m - n,
{
    if n < m {
        lemma_tuple_failure_stays(schema, ctx, target, items, n, (m - 1) as nat);
    }
}

} // verus!
