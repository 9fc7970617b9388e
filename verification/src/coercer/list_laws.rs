//! The items of a coerced list.

use vstd::prelude::*;
use crate::coercer::semantics::{coerce, list_items, Outcome};
use crate::context::{enter_scope, ContextModel};
use crate::error::ErrorModel;
use crate::field_type::TypeModel;
use crate::flags::FlagModel;
use crate::schema::SchemaModel;
use crate::text::decimal;
use crate::typed::TypedModel;
use crate::value::ValueModel;

verus! {

/// What the coercion of the array's item at position `i` into the element
/// type yields.
pub open spec fn item_outcome(
    schema: SchemaModel,
    ctx: ContextModel,
    target: TypeModel,
    items: Seq<ValueModel>,
    i: int,
) -> Outcome {
    coerce(schema, enter_scope(ctx, decimal(i as nat)), *target->List_0, Some(items[i]))
}

/// The positions, among the first `n` items of an array, of the items whose
/// coercion succeeds, in increasing order.
pub open spec fn kept_items(
    schema: SchemaModel,
    ctx: ContextModel,
    target: TypeModel,
    items: Seq<ValueModel>,
    n: nat,
) -> Seq<int>
    decreases n,
{
    if n == 0 || n > items.len() {
        Seq::empty()
    } else {
        let earlier = kept_items(schema, ctx, target, items, (n - 1) as nat);
        if item_outcome(schema, ctx, target, items, n - 1) is Ok {
            earlier.push(n - 1)
        } else {
            earlier
        }
    }
}

/// The positions, among the first `n` items of an array, of the items whose
/// coercion fails, in increasing order.
pub open spec fn dropped_items(
    schema: SchemaModel,
    ctx: ContextModel,
    target: TypeModel,
    items: Seq<ValueModel>,
    n: nat,
) -> Seq<int>
    decreases n,
{
    if n == 0 || n > items.len() {
        Seq::empty()
    } else {
        let earlier = dropped_items(schema, ctx, target, items, (n - 1) as nat);
        if item_outcome(schema, ctx, target, items, n - 1) is Err {
            earlier.push(n - 1)
        } else {
            earlier
        }
    }
}

/// The items of a coerced list are the results of the array's items whose
/// coercion succeeds, in the order of the array; and its flags report the
/// items whose coercion fails, each with its position and its failure, in
/// the order of the array.
pub proof fn law_list_keeps_successes_in_order(
    schema: SchemaModel,
    ctx: ContextModel,
    target: TypeModel,
    items: Seq<ValueModel>,
    n: nat,
)
    requires
        target is List,
        n <= items.len(),
    ensures
        ({
            let parts = list_items(schema, ctx, target, items, n);
            let kept = kept_items(schema, ctx, target, items, n);
            let dropped = dropped_items(schema, ctx, target, items, n);
            &&& parts.0.len() == kept.len()
            &&& parts.1.len() == dropped.len()
            &&& kept.len() + dropped.len() == n
            &&& forall|j: int|
                0 <= j < kept.len() ==> 0 <= #[trigger] kept[j] < n && item_outcome(
                    schema,
                    ctx,
                    target,
                    items,
                    kept[j],
                ) == Ok::<TypedModel, ErrorModel>(parts.0[j])
            &&& forall|j: int|
                0 <= j < dropped.len() ==> 0 <= #[trigger] dropped[j] < n && item_outcome(
                    schema,
                    ctx,
                    target,
                    items,
                    dropped[j],
                ) is Err && parts.1[j] == FlagModel::ArrayItemParseError(
                    dropped[j] as usize,
                    item_outcome(schema, ctx, target, items, dropped[j])->Err_0,
                )
            &&& forall|j: int, k: int| 0 <= j < k < kept.len() ==> kept[j] < kept[k]
            &&& forall|j: int, k: int| 0 <= j < k < dropped.len() ==> dropped[j] < dropped[k]
        }),
    decreases n,
{
    if n > 0 {
        law_list_keeps_successes_in_order(schema, ctx, target, items, (n - 1) as nat);
    }
}

} // verus!
