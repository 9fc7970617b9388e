//! The entries of a coerced map.

use vstd::prelude::*;
use crate::coercer::semantics::{coerce, map_entries};
use crate::context::{enter_scope, ContextModel};
use crate::error::ErrorModel;
use crate::field_type::TypeModel;
use crate::flags::FlagModel;
use crate::lookup::lemma_key_index_none;
use crate::schema::SchemaModel;
use crate::typed::TypedModel;
use crate::value::ValueModel;

verus! {

/// Whether an entry of an object survives coercion into a map type: its
/// value can be coerced into the value type, and its key into the key type.
pub open spec fn survives(
    schema: SchemaModel,
    ctx: ContextModel,
    target: TypeModel,
    entry: (Seq<char>, ValueModel),
) -> bool {
    &&& coerce(schema, enter_scope(ctx, entry.0), *target->MapOf_1, Some(entry.1)) is Ok
    &&& coerce(schema, ctx, *target->MapOf_0, Some(ValueModel::String(entry.0))) is Ok
}

/// The positions, among the first `n` entries of an object, of the entries
/// that survive, in increasing order.
pub open spec fn surviving_positions(
    schema: SchemaModel,
    ctx: ContextModel,
    target: TypeModel,
    entries: Seq<(Seq<char>, ValueModel)>,
    n: nat,
) -> Seq<int>
    decreases n,
{
    if n == 0 || n > entries.len() {
        Seq::empty()
    } else {
        let earlier = surviving_positions(schema, ctx, target, entries, (n - 1) as nat);
        if survives(schema, ctx, target, entries[n - 1]) {
            earlier.push(n - 1)
        } else {
            earlier
        }
    }
}

/// Whether no two entries of an object have the same key.
pub open spec fn has_distinct_keys(entries: Seq<(Seq<char>, ValueModel)>) -> bool {
    forall|i: int, j: int|
        0 <= i < entries.len() && 0 <= j < entries.len() && i != j ==> (#[trigger] entries[i]).0
            != (#[trigger] entries[j]).0
}

/// The entries of a map coerced from an object without repeated keys are
/// the entries of the object that survive, each under its own key and with
/// the result of its own value, in the order of the object.
pub proof fn law_map_keeps_surviving_entries_in_order(
    schema: SchemaModel,
    ctx: ContextModel,
    target: TypeModel,
    entries: Seq<(Seq<char>, ValueModel)>,
    n: nat,
)
    requires
        target is MapOf,
        has_distinct_keys(entries),
        n <= entries.len(),
    ensures
        ({
            let items = map_entries(schema, ctx, target, entries, n).0;
            let positions = surviving_positions(schema, ctx, target, entries, n);
            &&& items.len() == positions.len()
            &&& forall|j: int|
                0 <= j < positions.len() ==> 0 <= #[trigger] positions[j] < n && survives(
                    schema,
                    ctx,
                    target,
                    entries[positions[j]],
                ) && items[j].0 == entries[positions[j]].0 && items[j].1.0 == Seq::<
                    FlagModel,
                >::empty() && coerce(
                    schema,
                    enter_scope(ctx, items[j].0),
                    *target->MapOf_1,
                    Some(entries[positions[j]].1),
                ) == Ok::<TypedModel, ErrorModel>(items[j].1.1)
            &&& forall|j: int, k: int|
                0 <= j < k < positions.len() ==> positions[j] < positions[k]
            &&& forall|i: int|
                0 <= i < n && survives(schema, ctx, target, entries[i]) ==> positions.contains(i)
        }),
    decreases n,
{
    if n > 0 {
        law_map_keeps_surviving_entries_in_order(schema, ctx, target, entries, (n - 1) as nat);
        let earlier_items = map_entries(schema, ctx, target, entries, (n - 1) as nat).0;
        let earlier = surviving_positions(schema, ctx, target, entries, (n - 1) as nat);
        let positions = surviving_positions(schema, ctx, target, entries, n);
        let key = entries[n - 1].0;
        assert forall|j: int| 0 <= j < earlier_items.len() implies (#[trigger] earlier_items[j]).0
            != key by {
            assert(earlier[j] < n - 1);
            assert(entries[earlier[j]].0 != entries[n - 1].0);
        }
        lemma_key_index_none(earlier_items, key);
        assert forall|i: int|
            0 <= i < n && survives(schema, ctx, target, entries[i]) implies positions.contains(
            i,
        ) by {
            if i < n - 1 {
                assert(earlier.contains(i));
                let j = choose|j: int| 0 <= j < earlier.len() && earlier[j] == i;
                assert(positions[j] == i);
            } else {
                assert(positions[positions.len() - 1] == i);
            }
        }
    }
}

} // verus!
