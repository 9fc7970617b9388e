//! The order of the fields of a coerced class.

use vstd::prelude::*;
use crate::coercer::map_laws::has_distinct_keys;
use crate::coercer::semantics::{
    class_fields, coerce, coerce_class, fuel, lookup_field, Outcome,
};
use crate::context::{enter_class, enter_scope, ContextModel};
use crate::error::ErrorModel;
use crate::field_type::TypeModel;
use crate::lookup::{key_index, lemma_key_index};
use crate::schema::{find_class, ClassModel, FieldModel, SchemaModel};
use crate::typed::TypedModel;
use crate::value::ValueModel;

verus! {

/// What the coercion of the field at position `i` of a class yields for the
/// entries of an object.
pub open spec fn field_outcome(
    schema: SchemaModel,
    ctx: ContextModel,
    class: ClassModel,
    entries: Seq<(Seq<char>, ValueModel)>,
    i: int,
) -> Outcome {
    coerce(
        schema,
        enter_scope(enter_class(ctx, class.name), class.fields[i].name),
        class.fields[i].ty,
        lookup_field(entries, class.fields[i]),
    )
}

/// The positions, among the first `n` declared fields, of the fields whose
/// coercion succeeds, in increasing order.
pub open spec fn kept_positions(
    schema: SchemaModel,
    ctx: ContextModel,
    class: ClassModel,
    entries: Seq<(Seq<char>, ValueModel)>,
    n: nat,
) -> Seq<int>
    decreases n,
{
    if n == 0 || n > class.fields.len() {
        Seq::empty()
    } else {
        let earlier = kept_positions(schema, ctx, class, entries, (n - 1) as nat);
        if field_outcome(schema, ctx, class, entries, n - 1) is Ok {
            earlier.push(n - 1)
        } else {
            earlier
        }
    }
}

/// The fields of a coerced class are the declared fields whose coercion
/// succeeds, each under its declared name and with its own result, in the
/// order of the declaration.
pub proof fn lemma_class_fields_positions(
    schema: SchemaModel,
    ctx: ContextModel,
    target: TypeModel,
    class: ClassModel,
    entries: Seq<(Seq<char>, ValueModel)>,
    n: nat,
)
    requires
        fuel(ctx) > 0,
        n <= class.fields.len(),
    ensures
        ({
            let fields = class_fields(schema, ctx, target, class, entries, n).0;
            let positions = kept_positions(schema, ctx, class, entries, n);
            &&& fields.len() == positions.len()
            &&& forall|j: int|
                0 <= j < positions.len() ==> 0 <= #[trigger] positions[j] < n && field_outcome(
                    schema,
                    ctx,
                    class,
                    entries,
                    positions[j],
                ) == Ok::<TypedModel, ErrorModel>(fields[j].1) && fields[j].0
                    == class.fields[positions[j]].name
            &&& forall|j: int, k: int|
                0 <= j < k < positions.len() ==> positions[j] < positions[k]
            &&& forall|i: int|
                0 <= i < n && field_outcome(schema, ctx, class, entries, i) is Ok
                    ==> positions.contains(i)
        }),
    decreases n,
{
    if n > 0 {
        lemma_class_fields_positions(schema, ctx, target, class, entries, (n - 1) as nat);
        let earlier = kept_positions(schema, ctx, class, entries, (n - 1) as nat);
        let positions = kept_positions(schema, ctx, class, entries, n);
        assert forall|i: int|
            0 <= i < n && field_outcome(schema, ctx, class, entries, i) is Ok implies positions.contains(
            i,
        ) by {
            if i < n - 1 {
                assert(earlier.contains(i));
                let j = choose|j: int| 0 <= j < earlier.len() && earlier[j] == i;
                assert(positions[j] == i);
            } else {
                assert(positions[positions.len() - 1] == i);
            }
        }
    }
}

/// Coercion into a class succeeds only for a class of the schema and an
/// object, below the recursion guard, and then yields the class's name with
/// the fields and flags that its declared fields give for the object.
pub proof fn law_coerced_class_holds_its_fields(
    schema: SchemaModel,
    ctx: ContextModel,
    target: TypeModel,
    value: ValueModel,
)
    requires
        coerce_class(schema, ctx, target, value) is Ok,
    ensures
        fuel(ctx) > 0,
        target is Class,
        value is Object,
        find_class(schema, target->Class_0) is Some,
        ({
            let class = find_class(schema, target->Class_0)->0;
            let parts = class_fields(
                schema,
                ctx,
                target,
                class,
                value->Object_0,
                class.fields.len(),
            );
            coerce_class(schema, ctx, target, value) == Ok::<TypedModel, ErrorModel>(
                TypedModel::Class(class.name, parts.1, parts.0),
            )
        }),
{
}

/// The fields of a coerced class stand in the order of the declaration,
/// whatever the order of the object's entries: they are the declared fields
/// whose coercion succeeds, each under its declared name, at increasing
/// positions of the declaration.
pub proof fn law_class_fields_in_declaration_order(
    schema: SchemaModel,
    ctx: ContextModel,
    target: TypeModel,
    class: ClassModel,
    entries: Seq<(Seq<char>, ValueModel)>,
)
    requires
        fuel(ctx) > 0,
    ensures
        ({
            let fields = class_fields(schema, ctx, target, class, entries, class.fields.len()).0;
            let positions = kept_positions(schema, ctx, class, entries, class.fields.len());
            &&& fields.len() == positions.len()
            &&& forall|j: int|
                0 <= j < fields.len() ==> 0 <= #[trigger] positions[j] < class.fields.len()
                    && fields[j].0 == class.fields[positions[j]].name
            &&& forall|j: int, k: int|
                0 <= j < k < positions.len() ==> positions[j] < positions[k]
        }),
{
    lemma_class_fields_positions(schema, ctx, target, class, entries, class.fields.len());
}

/// Where the coercion of every declared field succeeds, as it does for an
/// object that gives a fitting value for each field, in whatever order, the
/// names of the fields of the coerced class are the declared names, one for
/// one.
pub proof fn law_complete_class_has_declared_names(
    schema: SchemaModel,
    ctx: ContextModel,
    target: TypeModel,
    class: ClassModel,
    entries: Seq<(Seq<char>, ValueModel)>,
)
    requires
        fuel(ctx) > 0,
        forall|i: int|
            0 <= i < class.fields.len() ==> field_outcome(schema, ctx, class, entries, i) is Ok,
    ensures
        ({
            let fields = class_fields(schema, ctx, target, class, entries, class.fields.len()).0;
            &&& fields.len() == class.fields.len()
            &&& forall|i: int|
                0 <= i < fields.len() ==> (#[trigger] fields[i]).0 == class.fields[i].name
        }),
{
    let n = class.fields.len();
    lemma_class_fields_positions(schema, ctx, target, class, entries, n);
    lemma_all_kept(schema, ctx, class, entries, n);
    let fields = class_fields(schema, ctx, target, class, entries, n).0;
    let positions = kept_positions(schema, ctx, class, entries, n);
    assert forall|i: int| 0 <= i < fields.len() implies (#[trigger] fields[i]).0
        == class.fields[i].name by {
        assert(positions[i] == i);
    }
}

/// Where the coercion of each of the first `n` fields succeeds, every
/// position is kept.
proof fn lemma_all_kept(
    schema: SchemaModel,
    ctx: ContextModel,
    class: ClassModel,
    entries: Seq<(Seq<char>, ValueModel)>,
    n: nat,
)
    requires
        n <= class.fields.len(),
        forall|i: int| 0 <= i < n ==> field_outcome(schema, ctx, class, entries, i) is Ok,
    ensures
        kept_positions(schema, ctx, class, entries, n).len() == n,
        forall|i: int|
            0 <= i < n ==> #[trigger] kept_positions(schema, ctx, class, entries, n)[i] == i,
    decreases n,
{
    if n > 0 {
        lemma_all_kept(schema, ctx, class, entries, (n - 1) as nat);
    }
}

/// The fields of a coerced class depend on the object only through the
/// value that each declared field finds in it: two objects in which every
/// declared field finds the same value give the same fields and flags.
pub proof fn law_class_fields_depend_on_lookups(
    schema: SchemaModel,
    ctx: ContextModel,
    target: TypeModel,
    class: ClassModel,
    first: Seq<(Seq<char>, ValueModel)>,
    second: Seq<(Seq<char>, ValueModel)>,
    n: nat,
)
    requires
        n <= class.fields.len(),
        forall|i: int|
            0 <= i < n ==> lookup_field(first, #[trigger] class.fields[i]) == lookup_field(
                second,
                class.fields[i],
            ),
    ensures
        class_fields(schema, ctx, target, class, first, n) == class_fields(
            schema,
            ctx,
            target,
            class,
            second,
            n,
        ),
    decreases n,
{
    if n > 0 {
        law_class_fields_depend_on_lookups(
            schema,
            ctx,
            target,
            class,
            first,
            second,
            (n - 1) as nat,
        );
        assert(lookup_field(first, class.fields[n - 1]) == lookup_field(
            second,
            class.fields[n - 1],
        ));
    }
}

/// Whether an object holds `value` under `key`.
pub open spec fn holds(entries: Seq<(Seq<char>, ValueModel)>, key: Seq<char>, value: ValueModel) -> bool {
    exists|i: int| 0 <= i < entries.len() && #[trigger] entries[i] == (key, value)
}

/// The value under a key of an object without repeated keys is the value
/// that the object holds under the key.
proof fn lemma_key_index_holds(entries: Seq<(Seq<char>, ValueModel)>, key: Seq<char>)
    requires
        has_distinct_keys(entries),
    ensures
        match key_index(entries, key) {
            Some(i) => 0 <= i < entries.len() && holds(entries, key, entries[i].1) && forall|
                value: ValueModel,
            |
                holds(entries, key, value) ==> value == entries[i].1,
            None => forall|value: ValueModel| !holds(entries, key, value),
        },
{
    lemma_key_index(entries, key);
    match key_index(entries, key) {
        Some(i) => {
            assert(entries[i] == (key, entries[i].1));
            assert forall|value: ValueModel| holds(entries, key, value) implies value
                == entries[i].1 by {
                let j = choose|j: int| 0 <= j < entries.len() && #[trigger] entries[j] == (
                    key,
                    value,
                );
                if j != i {
                    assert(entries[j].0 == entries[i].0);
                }
            }
        },
        None => {
            assert forall|value: ValueModel| !holds(entries, key, value) by {
                if holds(entries, key, value) {
                    let j = choose|j: int| 0 <= j < entries.len() && #[trigger] entries[j] == (
                        key,
                        value,
                    );
                    assert(entries[j].0 == key);
                }
            }
        },
    }
}

/// What a field finds in an object does not depend on the order of the
/// object's entries: two objects without repeated keys that hold the same
/// values under the same keys give every field the same value.
pub proof fn law_lookup_ignores_entry_order(
    first: Seq<(Seq<char>, ValueModel)>,
    second: Seq<(Seq<char>, ValueModel)>,
    field: FieldModel,
)
    requires
        has_distinct_keys(first),
        has_distinct_keys(second),
        forall|key: Seq<char>, value: ValueModel|
            holds(first, key, value) <==> holds(second, key, value),
    ensures
        lookup_field(first, field) == lookup_field(second, field),
{
    lemma_key_index_holds(first, field.name);
    lemma_key_index_holds(second, field.name);
    if let Some(i) = key_index(first, field.name) {
        assert(holds(second, field.name, first[i].1));
    }
    if let Some(i) = key_index(second, field.name) {
        assert(holds(first, field.name, second[i].1));
    }
    if let Some(alias) = field.alias {
        lemma_key_index_holds(first, alias);
        lemma_key_index_holds(second, alias);
        if let Some(i) = key_index(first, alias) {
            assert(holds(second, alias, first[i].1));
        }
        if let Some(i) = key_index(second, alias) {
            assert(holds(first, alias, second[i].1));
        }
    }
}

/// A class coerced from an object does not depend on the order of the
/// object's entries: two objects without repeated keys that hold the same
/// values under the same keys give the same fields and flags.
pub proof fn law_class_ignores_entry_order(
    schema: SchemaModel,
    ctx: ContextModel,
    target: TypeModel,
    class: ClassModel,
    first: Seq<(Seq<char>, ValueModel)>,
    second: Seq<(Seq<char>, ValueModel)>,
)
    requires
        has_distinct_keys(first),
        has_distinct_keys(second),
        forall|key: Seq<char>, value: ValueModel|
            holds(first, key, value) <==> holds(second, key, value),
    ensures
        class_fields(schema, ctx, target, class, first, class.fields.len()) == class_fields(
            schema,
            ctx,
            target,
            class,
            second,
            class.fields.len(),
        ),
{
    assert forall|i: int| 0 <= i < class.fields.len() implies lookup_field(
        first,
        #[trigger] class.fields[i],
    ) == lookup_field(second, class.fields[i]) by {
        law_lookup_ignores_entry_order(first, second, class.fields[i]);
    }
    law_class_fields_depend_on_lookups(
        schema,
        ctx,
        target,
        class,
        first,
        second,
        class.fields.len(),
    );
}

} // verus!
