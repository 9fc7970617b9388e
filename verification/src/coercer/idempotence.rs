//! Coercing again what coercion has produced.
//!
//! A coerced value, stripped of its flags and spelled as a loosely typed
//! value, coerces into the same target type again, and to the same plain
//! value. This holds of target types whose unions choose among alternatives
//! that take values of different shapes, over schemas whose classes can be
//! read back: see [`law_coercion_is_idempotent`].

use vstd::prelude::*;
use crate::coercer::class_laws::{field_outcome, kept_positions, lemma_class_fields_positions};
use crate::coercer::conformance::{
    alternative_yields, best_result, is_key_material, lemma_key_fits, lemma_key_is_taken,
    lemma_union_has_a_success, lemma_union_success_is_found,
};
use crate::coercer::key_laws::law_key_check;
use crate::coercer::semantics::{
    class_fields,
    coerce,
    coerce_bare,
    coerce_class,
    coerce_enum,
    coerce_list,
    coerce_map,
    coerce_tuple,
    coerce_union,
    enum_member,
    is_aliased,
    is_named,
    fuel,
    key_problem,
    list_items,
    lookup_field,
    map_entries,
    tuple_items,
};
use crate::context::{enter_class, enter_scope, ContextModel};
use crate::error::ErrorModel;
use crate::field_type::{LiteralModel, TypeModel, TypeValue};
use crate::flags::FlagModel;
use crate::lookup::{
    first_index,
    lemma_first_from,
    lemma_key_index,
    lemma_key_index_is,
    lemma_key_index_none,
};
use crate::schema::{find_class, find_enum, ClassModel, EnumModel, SchemaModel};
use crate::text::{decimal, lemma_integer_spells_decimal};
use crate::typed::{plain_of, value_of, with_flag, PlainModel, TypedModel};
use crate::value::{bare_value, shape_of, NumberModel, ValueModel, ValueShape};

verus! {

/// Whether a type may take a value of this shape: whether coercion into it
/// can succeed at all for such a value.
pub open spec fn may_take(t: TypeModel, shape: ValueShape) -> bool
    decreases t,
{
    match t {
        TypeModel::Primitive(TypeValue::String) => shape is String,
        TypeModel::Primitive(TypeValue::Int) => shape is Number || shape is String,
        TypeModel::Primitive(TypeValue::Float) => shape is Number,
        TypeModel::Primitive(TypeValue::Bool) => shape is Bool,
        TypeModel::Primitive(TypeValue::Null) => shape is Null,
        TypeModel::Primitive(TypeValue::Media(_)) => false,
        TypeModel::Literal(LiteralModel::String(_)) => shape is String,
        TypeModel::Literal(LiteralModel::Int(_)) => shape is Number || shape is String,
        TypeModel::Literal(LiteralModel::Bool(_)) => shape is Bool,
        TypeModel::Enum(_) => shape is String,
        TypeModel::Class(_) => shape is Object,
        TypeModel::MapOf(_, _) => shape is Object,
        TypeModel::List(_) => shape is Array,
        TypeModel::Tuple(_) => shape is Array,
        TypeModel::Optional(_) => true,
        TypeModel::Union(alternatives) => exists|i: int|
            0 <= i < alternatives.len() && may_take(#[trigger] alternatives[i], shape),
        TypeModel::Constrained(base, _) => may_take(*base, shape),
    }
}

/// Whether no two of the alternatives may take a value of the same shape.
pub open spec fn alternatives_are_apart(alternatives: Seq<TypeModel>) -> bool {
    forall|i: int, j: int, shape: ValueShape|
        0 <= i < alternatives.len() && 0 <= j < alternatives.len() && i != j ==> !(
        #[trigger] may_take(alternatives[i], shape) && #[trigger] may_take(
            alternatives[j],
            shape,
        ))
}

/// Whether every union in `t`, those in the key types of maps aside,
/// chooses among alternatives that take values of different shapes.
pub open spec fn choices_are_apart(t: TypeModel) -> bool
    decreases t,
{
    match t {
        TypeModel::Primitive(_) => true,
        TypeModel::Enum(_) => true,
        TypeModel::Literal(_) => true,
        TypeModel::Class(_) => true,
        TypeModel::List(element) => choices_are_apart(*element),
        TypeModel::MapOf(_, value_type) => choices_are_apart(*value_type),
        TypeModel::Union(alternatives) => alternatives_are_apart(alternatives) && forall|i: int|
            0 <= i < alternatives.len() ==> choices_are_apart(#[trigger] alternatives[i]),
        TypeModel::Tuple(items) => forall|i: int|
            0 <= i < items.len() ==> choices_are_apart(#[trigger] items[i]),
        TypeModel::Optional(inner) => choices_are_apart(*inner),
        TypeModel::Constrained(base, _) => choices_are_apart(*base),
    }
}

/// A type takes only values of the shapes that it may take.
pub proof fn lemma_taken_shape(
    schema: SchemaModel,
    ctx: ContextModel,
    t: TypeModel,
    value: ValueModel,
)
    requires
        coerce_bare(schema, ctx, t, Some(value)) is Ok,
    ensures
        may_take(t, shape_of(value)),
    decreases t,
{
    match t {
        TypeModel::Constrained(base, _) => {
            lemma_taken_shape(schema, ctx, *base, value);
        },
        TypeModel::Union(alternatives) => {
            assert(coerce_union(schema, ctx, t, value) is Ok);
            lemma_union_has_a_success(schema, ctx, t, value, alternatives.len());
            let best = best_result(schema, ctx, t, value, alternatives.len());
            let i = choose|i: int| #[trigger] alternative_yields(schema, ctx, t, value, i, best);
            lemma_taken_shape(schema, ctx, alternatives[i], value);
        },
        TypeModel::Class(_) => {
            assert(coerce_class(schema, ctx, t, value) is Ok);
        },
        TypeModel::List(_) => {
            assert(coerce_list(schema, ctx, t, value) is Ok);
        },
        TypeModel::Tuple(_) => {
            assert(coerce_tuple(schema, ctx, t, value) is Ok);
        },
        TypeModel::MapOf(_, _) => {
            assert(coerce_map(schema, ctx, t, Some(value)) is Ok);
        },
        TypeModel::Enum(name) => {
            assert(coerce_enum(schema, ctx, t, name, value) is Ok);
        },
        _ => {},
    }
}

/// Whether a class can be read back from its own fields: the unions in its
/// fields' types choose among alternatives that take values of different
/// shapes, no two fields have the same name, and no field's alias is the
/// name of another field.
pub open spec fn class_reads_back(class: ClassModel) -> bool {
    &&& forall|i: int| 0 <= i < class.fields.len() ==> choices_are_apart((#[trigger] class.fields[i]).ty)
    &&& forall|i: int, j: int|
        0 <= i < class.fields.len() && 0 <= j < class.fields.len() && i != j ==> (
        #[trigger] class.fields[i]).name != (#[trigger] class.fields[j]).name
    &&& forall|i: int, j: int|
        0 <= i < class.fields.len() && 0 <= j < class.fields.len() && i != j ==> (
        #[trigger] class.fields[i]).alias != Some((#[trigger] class.fields[j]).name)
}

/// Whether every class that a name finds in a schema can be read back from
/// its own fields.
pub open spec fn schema_reads_back(schema: SchemaModel) -> bool {
    forall|name: Seq<char>|
        (#[trigger] find_class(schema, name)) matches Some(class) ==> class_reads_back(class)
}

/// A flag on the top node does not change the plain value.
pub proof fn lemma_plain_ignores_flag(t: TypedModel, flag: FlagModel)
    ensures
        plain_of(with_flag(t, flag)) == plain_of(t),
{
}

/// The spelling of a plain value is never marked as recovered from a fenced block.
pub proof fn lemma_spelling_is_bare(p: PlainModel)
    ensures
        !(value_of(p) is Markdown),
{
}

/// Whether a type takes an absent value: an optional type does, under any
/// number of constraint wrappers, and no other type.
pub open spec fn accepts_absence(t: TypeModel) -> bool
    decreases t,
{
    match t {
        TypeModel::Constrained(base, _) => accepts_absence(*base),
        TypeModel::Optional(_) => true,
        _ => false,
    }
}

/// An absent value is coerced exactly by the types that take absence, and
/// to null; and such a type takes every value.
pub proof fn lemma_absence(schema: SchemaModel, ctx: ContextModel, t: TypeModel)
    ensures
        coerce_bare(schema, ctx, t, None) is Ok <==> accepts_absence(t),
        coerce_bare(schema, ctx, t, None) matches Ok(r) ==> plain_of(r) == PlainModel::Null,
        accepts_absence(t) ==> forall|v: ValueModel| (#[trigger] coerce_bare(schema, ctx, t, Some(v))) is Ok,
    decreases t,
{
    match t {
        TypeModel::Constrained(base, _) => {
            lemma_absence(schema, ctx, *base);
            if accepts_absence(t) {
                assert forall|v: ValueModel|
                    (#[trigger] coerce_bare(schema, ctx, t, Some(v))) is Ok by {
                    assert(coerce_bare(schema, ctx, *base, Some(v)) is Ok);
                }
            }
        },
        _ => {},
    }
}

/// An absent value, or any value for a type that takes absence, through
/// the coercion that looks into fenced blocks.
pub proof fn lemma_absence_outer(schema: SchemaModel, ctx: ContextModel, t: TypeModel)
    ensures
        coerce(schema, ctx, t, None) is Ok <==> accepts_absence(t),
        accepts_absence(t) ==> forall|v: Option<ValueModel>| (#[trigger] coerce(schema, ctx, t, v)) is Ok,
{
    lemma_absence(schema, ctx, t);
    if accepts_absence(t) {
        assert forall|v: Option<ValueModel>| (#[trigger] coerce(schema, ctx, t, v)) is Ok by {
            match v {
                Some(ValueModel::Markdown(tag, inner)) => {
                    assert(coerce_bare(schema, ctx, t, Some(bare_value(*inner))) is Ok);
                },
                Some(x) => {
                    assert(coerce_bare(schema, ctx, t, Some(x)) is Ok);
                },
                None => {},
            }
        }
    }
}

/// Whether a text is taken as a key does not depend on the context, for a
/// key type that passes the check.
pub proof fn lemma_key_ignores_scope(
    schema: SchemaModel,
    first: ContextModel,
    second: ContextModel,
    key_type: TypeModel,
    key: Seq<char>,
)
    requires
        key_problem(first, key_type) is None,
    ensures
        coerce(schema, first, key_type, Some(ValueModel::String(key))) is Ok <==> coerce(
            schema,
            second,
            key_type,
            Some(ValueModel::String(key)),
        ) is Ok,
{
    let value = Some(ValueModel::String(key));
    law_key_check(first, key_type);
    assert(is_key_material(key_type));
    if coerce_bare(schema, first, key_type, value) is Ok {
        lemma_key_fits(schema, first, key_type, key);
        lemma_key_is_taken(schema, second, key_type, key);
    }
    if coerce_bare(schema, second, key_type, value) is Ok {
        lemma_key_fits(schema, second, key_type, key);
        lemma_key_is_taken(schema, first, key_type, key);
    }
}

/// Whether a coerced value reads back: its plain value, spelled as a
/// loosely typed value, coerces into the target type again, and to the same
/// plain value.
pub open spec fn reads_back(
    schema: SchemaModel,
    ctx: ContextModel,
    target: TypeModel,
    r: TypedModel,
) -> bool {
    coerce(schema, ctx, target, Some(value_of(plain_of(r)))) matches Ok(again) && plain_of(again)
        == plain_of(r)
}

/// The spellings of the plain values of a list of typed values.
pub open spec fn spelled_items(kept: Seq<TypedModel>) -> Seq<ValueModel> {
    Seq::new(kept.len(), |j: int| value_of(plain_of(kept[j])))
}

/// The spellings of the plain values of the fields of a class value.
pub open spec fn spelled_fields(fields: Seq<(Seq<char>, TypedModel)>) -> Seq<
    (Seq<char>, ValueModel),
> {
    Seq::new(fields.len(), |j: int| (fields[j].0, value_of(plain_of(fields[j].1))))
}

/// The spellings of the plain values of the entries of a map value.
pub open spec fn spelled_entries(entries: Seq<(Seq<char>, (Seq<FlagModel>, TypedModel))>) -> Seq<
    (Seq<char>, ValueModel),
> {
    Seq::new(entries.len(), |j: int| (entries[j].0, value_of(plain_of(entries[j].1.1))))
}

/// How a list, a class and a map are spelled.
pub proof fn lemma_spellings(t: TypedModel)
    ensures
        t matches TypedModel::List(_, kept) ==> value_of(plain_of(t)) == ValueModel::Array(
            spelled_items(kept),
        ),
        t matches TypedModel::Class(_, _, fields) ==> value_of(plain_of(t)) == ValueModel::Object(
            spelled_fields(fields),
        ),
        t matches TypedModel::MapOf(_, entries) ==> value_of(plain_of(t)) == ValueModel::Object(
            spelled_entries(entries),
        ),
{
    match t {
        TypedModel::List(_, kept) => {
            assert(value_of(plain_of(t))->Array_0 =~= spelled_items(kept));
        },
        TypedModel::Class(_, _, fields) => {
            assert(value_of(plain_of(t))->Object_0 =~= spelled_fields(fields));
        },
        TypedModel::MapOf(_, entries) => {
            assert(value_of(plain_of(t))->Object_0 =~= spelled_entries(entries));
        },
        _ => {},
    }
}

/// Two lists of typed values with the same plain values, one for one, make
/// the same plain list.
pub proof fn lemma_same_plain_list(
    flags: Seq<FlagModel>,
    kept: Seq<TypedModel>,
    other_flags: Seq<FlagModel>,
    other: Seq<TypedModel>,
)
    requires
        kept.len() == other.len(),
        forall|j: int| 0 <= j < kept.len() ==> plain_of(#[trigger] other[j]) == plain_of(kept[j]),
    ensures
        plain_of(TypedModel::List(other_flags, other)) == plain_of(TypedModel::List(flags, kept)),
{
    assert(plain_of(TypedModel::List(other_flags, other))->List_0 =~= plain_of(
        TypedModel::List(flags, kept),
    )->List_0);
}

/// Whether `item` is what the array's item at position `p` is coerced to.
pub open spec fn item_comes_from(
    schema: SchemaModel,
    ctx: ContextModel,
    target: TypeModel,
    items: Seq<ValueModel>,
    p: int,
    item: TypedModel,
) -> bool {
    0 <= p < items.len() && coerce(
        schema,
        enter_scope(ctx, decimal(p as nat)),
        *target->List_0,
        Some(items[p]),
    ) == Ok::<TypedModel, ErrorModel>(item)
}

/// Whether `item` is what one of the array's items is coerced to.
pub open spec fn item_has_origin(
    schema: SchemaModel,
    ctx: ContextModel,
    target: TypeModel,
    items: Seq<ValueModel>,
    item: TypedModel,
) -> bool {
    exists|p: int| #[trigger] item_comes_from(schema, ctx, target, items, p, item)
}

/// Every item that a list keeps is the result of one of the array's items.
pub proof fn lemma_list_origin(
    schema: SchemaModel,
    ctx: ContextModel,
    target: TypeModel,
    items: Seq<ValueModel>,
    n: nat,
)
    requires
        n <= items.len(),
        target is List,
    ensures
        ({
            let kept = list_items(schema, ctx, target, items, n).0;
            forall|j: int|
                0 <= j < kept.len() ==> item_has_origin(
                    schema,
                    ctx,
                    target,
                    items,
                    #[trigger] kept[j],
                )
        }),
    decreases n,
{
    let now = list_items(schema, ctx, target, items, n).0;
    if n > 0 {
        lemma_list_origin(schema, ctx, target, items, (n - 1) as nat);
    }
    assert forall|j: int| 0 <= j < now.len() implies item_has_origin(
        schema,
        ctx,
        target,
        items,
        #[trigger] now[j],
    ) by {
        let earlier = list_items(schema, ctx, target, items, (n - 1) as nat).0;
        let last = coerce(
            schema,
            enter_scope(ctx, decimal((n - 1) as nat)),
            *target->List_0,
            Some(items[n - 1]),
        );
        if j < earlier.len() {
            assert(now[j] == earlier[j]);
            let p = choose|p: int|
                #[trigger] item_comes_from(schema, ctx, target, items, p, earlier[j]);
            assert(item_comes_from(schema, ctx, target, items, p, now[j]));
        } else {
            assert(last is Ok);
            assert(now == earlier.push(last->Ok_0));
            assert(item_comes_from(schema, ctx, target, items, n - 1, now[j]));
        }
    }
}

/// A value that coercion has produced reads back under any scope at the
/// same depth and with the same limit, for a target type whose unions
/// choose among alternatives for different shapes, over a schema whose
/// classes can be read back.
pub proof fn lemma_again(
    schema: SchemaModel,
    first: ContextModel,
    second: ContextModel,
    target: TypeModel,
    value: Option<ValueModel>,
)
    requires
        schema_reads_back(schema),
        choices_are_apart(target),
        first.visited.len() == second.visited.len(),
        first.limit == second.limit,
        coerce(schema, first, target, value) is Ok,
    ensures
        reads_back(schema, second, target, coerce(schema, first, target, value)->Ok_0),
    decreases fuel(first), target, 3nat, 0nat,
{
    match value {
        Some(ValueModel::Markdown(tag, inner)) => {
            let t = coerce_bare(schema, first, target, Some(bare_value(*inner)))->Ok_0;
            lemma_again_bare(schema, first, second, target, Some(bare_value(*inner)));
            lemma_plain_ignores_flag(t, FlagModel::ObjectFromMarkdown);
        },
        _ => {
            lemma_again_bare(schema, first, second, target, value);
        },
    }
}

/// The same, for the coercion that does not look into fenced blocks.
pub proof fn lemma_again_bare(
    schema: SchemaModel,
    first: ContextModel,
    second: ContextModel,
    target: TypeModel,
    value: Option<ValueModel>,
)
    requires
        schema_reads_back(schema),
        choices_are_apart(target),
        first.visited.len() == second.visited.len(),
        first.limit == second.limit,
        coerce_bare(schema, first, target, value) is Ok,
    ensures
        reads_back(schema, second, target, coerce_bare(schema, first, target, value)->Ok_0),
    decreases fuel(first), target, 2nat, 0nat,
{
    let r = coerce_bare(schema, first, target, value)->Ok_0;
    lemma_spelling_is_bare(plain_of(r));
    match target {
        TypeModel::Constrained(base, _) => {
            lemma_again_bare(schema, first, second, *base, value);
        },
        TypeModel::Optional(inner) => {
            match value {
                None => {},
                Some(ValueModel::Null) => {},
                Some(v) => {
                    if coerce_bare(schema, first, *inner, Some(v)) is Ok {
                        lemma_again_bare(schema, first, second, *inner, Some(v));
                        lemma_spelling_is_bare(plain_of(r));
                    }
                },
            }
        },
        TypeModel::Primitive(_) => {
            if let Some(ValueModel::Number(NumberModel::Int(n))) = value {
                lemma_integer_spells_decimal(n as int);
            }
        },
        TypeModel::Literal(_) => {},
        TypeModel::Enum(name) => {
            lemma_again_enum(schema, first, second, target, value->0);
        },
        TypeModel::Class(_) => {
            lemma_again_class(schema, first, second, target, value->0);
        },
        TypeModel::List(_) => {
            lemma_again_list(schema, first, second, target, value->0);
        },
        TypeModel::MapOf(_, _) => {
            lemma_again_map(schema, first, second, target, value->0);
        },
        TypeModel::Tuple(_) => {
            lemma_again_tuple(schema, first, second, target, value->0);
        },
        TypeModel::Union(_) => {
            lemma_again_union(schema, first, second, target, value->0);
        },
    }
}

/// A union's value reads back, where the alternatives take values of
/// different shapes: the alternative that was chosen takes the spelled
/// value again, and no other alternative takes a value of that shape.
pub proof fn lemma_again_union(
    schema: SchemaModel,
    first: ContextModel,
    second: ContextModel,
    target: TypeModel,
    value: ValueModel,
)
    requires
        schema_reads_back(schema),
        choices_are_apart(target),
        target is Union,
        first.visited.len() == second.visited.len(),
        first.limit == second.limit,
        coerce_union(schema, first, target, value) is Ok,
    ensures
        coerce_union(
            schema,
            second,
            target,
            value_of(plain_of(coerce_union(schema, first, target, value)->Ok_0)),
        ) matches Ok(again) && plain_of(again) == plain_of(
            coerce_union(schema, first, target, value)->Ok_0,
        ),
    decreases fuel(first), target, 1nat, 0nat,
{
    let alternatives = target->Union_0;
    let n = alternatives.len();
    lemma_union_has_a_success(schema, first, target, value, n);
    let t = best_result(schema, first, target, value, n);
    let i = choose|i: int| #[trigger] alternative_yields(schema, first, target, value, i, t);
    let spelled = value_of(plain_of(t));
    lemma_spelling_is_bare(plain_of(t));
    lemma_again_bare(schema, first, second, alternatives[i], Some(value));
    let again = coerce_bare(schema, second, alternatives[i], Some(spelled))->Ok_0;
    lemma_union_success_is_found(schema, second, target, spelled, n, i);
    lemma_union_has_a_success(schema, second, target, spelled, n);
    let chosen = best_result(schema, second, target, spelled, n);
    let j = choose|j: int|
        #[trigger] alternative_yields(schema, second, target, spelled, j, chosen);
    lemma_taken_shape(schema, second, alternatives[i], spelled);
    lemma_taken_shape(schema, second, alternatives[j], spelled);
    assert(may_take(alternatives[i], shape_of(spelled)) && may_take(
        alternatives[j],
        shape_of(spelled),
    ));
    assert(i == j);
    assert(chosen == again);
}

/// The member that a text names is named by its own name.
pub proof fn lemma_member_names_itself(e: EnumModel, s: Seq<char>)
    requires
        enum_member(e, s) is Some,
    ensures
        enum_member(e, enum_member(e, s)->0) == enum_member(e, s),
{
    let member = enum_member(e, s)->0;
    let by_name = is_named(s);
    let by_alias = is_aliased(s);
    let by_own = is_named(member);
    lemma_first_from(e.values, by_name, 0);
    lemma_first_from(e.values, by_alias, 0);
    lemma_first_from(e.values, by_own, 0);
    let i = if first_index(e.values, by_name) is Some {
        first_index(e.values, by_name)->0
    } else {
        first_index(e.values, by_alias)->0
    };
    assert(e.values[i].name == member);
    assert(by_own(e.values[i]));
}

/// An enum value reads back.
pub proof fn lemma_again_enum(
    schema: SchemaModel,
    first: ContextModel,
    second: ContextModel,
    target: TypeModel,
    value: ValueModel,
)
    requires
        target is Enum,
        coerce_enum(schema, first, target, target->Enum_0, value) is Ok,
    ensures
        coerce_enum(
            schema,
            second,
            target,
            target->Enum_0,
            value_of(plain_of(coerce_enum(schema, first, target, target->Enum_0, value)->Ok_0)),
        ) matches Ok(again) && plain_of(again) == plain_of(
            coerce_enum(schema, first, target, target->Enum_0, value)->Ok_0,
        ),
{
    let e = find_enum(schema, target->Enum_0)->0;
    let s = value->String_0;
    lemma_member_names_itself(e, s);
}

/// What a list keeps reads back, item by item.
pub proof fn lemma_list_again(
    schema: SchemaModel,
    first: ContextModel,
    second: ContextModel,
    target: TypeModel,
    items: Seq<ValueModel>,
    m: nat,
)
    requires
        schema_reads_back(schema),
        choices_are_apart(target),
        target is List,
        first.visited.len() == second.visited.len(),
        first.limit == second.limit,
        m <= list_items(schema, first, target, items, items.len()).0.len(),
    ensures
        ({
            let kept = list_items(schema, first, target, items, items.len()).0;
            let again = list_items(schema, second, target, spelled_items(kept), m);
            &&& again.0.len() == m
            &&& forall|j: int| 0 <= j < m ==> plain_of(#[trigger] again.0[j]) == plain_of(kept[j])
        }),
    decreases fuel(first), target, 0nat, m,
{
    if m > 0 {
        let kept = list_items(schema, first, target, items, items.len()).0;
        lemma_list_again(schema, first, second, target, items, (m - 1) as nat);
        lemma_list_origin(schema, first, target, items, items.len());
        let p = choose|p: int|
            #[trigger] item_comes_from(schema, first, target, items, p, kept[m - 1]);
        lemma_again(
            schema,
            enter_scope(first, decimal(p as nat)),
            enter_scope(second, decimal((m - 1) as nat)),
            *target->List_0,
            Some(items[p]),
        );
        assert(spelled_items(kept)[m - 1] == value_of(plain_of(kept[m - 1])));
    }
}

/// A list reads back.
pub proof fn lemma_again_list(
    schema: SchemaModel,
    first: ContextModel,
    second: ContextModel,
    target: TypeModel,
    value: ValueModel,
)
    requires
        schema_reads_back(schema),
        choices_are_apart(target),
        target is List,
        first.visited.len() == second.visited.len(),
        first.limit == second.limit,
        coerce_list(schema, first, target, value) is Ok,
    ensures
        coerce_list(
            schema,
            second,
            target,
            value_of(plain_of(coerce_list(schema, first, target, value)->Ok_0)),
        ) matches Ok(again) && plain_of(again) == plain_of(
            coerce_list(schema, first, target, value)->Ok_0,
        ),
    decreases fuel(first), target, 1nat, 0nat,
{
    let r = coerce_list(schema, first, target, value)->Ok_0;
    let items = value->Array_0;
    let parts = list_items(schema, first, target, items, items.len());
    assert(r == TypedModel::List(parts.1, parts.0));
    lemma_spellings(r);
    lemma_list_again(schema, first, second, target, items, parts.0.len());
    let again = list_items(schema, second, target, spelled_items(parts.0), parts.0.len());
    lemma_same_plain_list(parts.1, parts.0, again.1, again.0);
    assert(spelled_items(parts.0).len() == parts.0.len());
}

/// What a tuple holds: one result for each position, that of the item there.
pub proof fn lemma_tuple_origin(
    schema: SchemaModel,
    ctx: ContextModel,
    target: TypeModel,
    items: Seq<ValueModel>,
    n: nat,
)
    requires
        target is Tuple,
        n <= items.len(),
        n <= target->Tuple_0.len(),
        tuple_items(schema, ctx, target, items, n) is Ok,
    ensures
        tuple_items(schema, ctx, target, items, n)->Ok_0.len() == n,
        forall|j: int|
            0 <= j < n ==> #[trigger] coerce(
                schema,
                enter_scope(ctx, decimal(j as nat)),
                target->Tuple_0[j],
                Some(items[j]),
            ) == Ok::<TypedModel, ErrorModel>(
                tuple_items(schema, ctx, target, items, n)->Ok_0[j],
            ),
    decreases n,
{
    if n > 0 {
        lemma_tuple_origin(schema, ctx, target, items, (n - 1) as nat);
    }
}

/// What a tuple holds reads back, position by position.
pub proof fn lemma_tuple_again(
    schema: SchemaModel,
    first: ContextModel,
    second: ContextModel,
    target: TypeModel,
    items: Seq<ValueModel>,
    m: nat,
)
    requires
        schema_reads_back(schema),
        choices_are_apart(target),
        target is Tuple,
        first.visited.len() == second.visited.len(),
        first.limit == second.limit,
        items.len() == target->Tuple_0.len(),
        tuple_items(schema, first, target, items, items.len()) is Ok,
        m <= items.len(),
    ensures
        ({
            let done = tuple_items(schema, first, target, items, items.len())->Ok_0;
            let again = tuple_items(schema, second, target, spelled_items(done), m);
            &&& again is Ok
            &&& again->Ok_0.len() == m
            &&& forall|j: int|
                0 <= j < m ==> plain_of(#[trigger] again->Ok_0[j]) == plain_of(done[j])
        }),
    decreases fuel(first), target, 0nat, m,
{
    let done = tuple_items(schema, first, target, items, items.len())->Ok_0;
    lemma_tuple_origin(schema, first, target, items, items.len());
    if m > 0 {
        lemma_tuple_again(schema, first, second, target, items, (m - 1) as nat);
        assert(coerce(
            schema,
            enter_scope(first, decimal((m - 1) as nat)),
            target->Tuple_0[m - 1],
            Some(items[m - 1]),
        ) == Ok::<TypedModel, ErrorModel>(done[m - 1]));
        lemma_again(
            schema,
            enter_scope(first, decimal((m - 1) as nat)),
            enter_scope(second, decimal((m - 1) as nat)),
            target->Tuple_0[m - 1],
            Some(items[m - 1]),
        );
        assert(spelled_items(done)[m - 1] == value_of(plain_of(done[m - 1])));
    }
}

/// A tuple reads back.
pub proof fn lemma_again_tuple(
    schema: SchemaModel,
    first: ContextModel,
    second: ContextModel,
    target: TypeModel,
    value: ValueModel,
)
    requires
        schema_reads_back(schema),
        choices_are_apart(target),
        target is Tuple,
        first.visited.len() == second.visited.len(),
        first.limit == second.limit,
        coerce_tuple(schema, first, target, value) is Ok,
    ensures
        coerce_tuple(
            schema,
            second,
            target,
            value_of(plain_of(coerce_tuple(schema, first, target, value)->Ok_0)),
        ) matches Ok(again) && plain_of(again) == plain_of(
            coerce_tuple(schema, first, target, value)->Ok_0,
        ),
    decreases fuel(first), target, 1nat, 0nat,
{
    let r = coerce_tuple(schema, first, target, value)->Ok_0;
    let items = value->Array_0;
    let done = tuple_items(schema, first, target, items, items.len())->Ok_0;
    assert(r == TypedModel::List(Seq::empty(), done));
    lemma_spellings(r);
    lemma_tuple_origin(schema, first, target, items, items.len());
    lemma_tuple_again(schema, first, second, target, items, items.len());
    let again = tuple_items(schema, second, target, spelled_items(done), items.len())->Ok_0;
    assert(spelled_items(done).len() == items.len());
    lemma_same_plain_list(Seq::empty(), done, Seq::empty(), again);
}

/// Whether no two pairs are under the same key.
pub open spec fn distinct_keys<V>(items: Seq<(Seq<char>, V)>) -> bool {
    forall|i: int, j: int|
        0 <= i < items.len() && 0 <= j < items.len() && i != j ==> (#[trigger] items[i]).0 != (
        #[trigger] items[j]).0
}

/// Whether `item` is what the object's entry at position `p` gives for a map.
pub open spec fn entry_comes_from(
    schema: SchemaModel,
    ctx: ContextModel,
    target: TypeModel,
    entries: Seq<(Seq<char>, ValueModel)>,
    p: int,
    item: (Seq<char>, (Seq<FlagModel>, TypedModel)),
) -> bool {
    &&& 0 <= p < entries.len()
    &&& entries[p].0 == item.0
    &&& coerce(schema, enter_scope(ctx, item.0), *target->MapOf_1, Some(entries[p].1)) == Ok::<
        TypedModel,
        ErrorModel,
    >(item.1.1)
    &&& coerce(schema, ctx, *target->MapOf_0, Some(ValueModel::String(item.0))) is Ok
}

/// Whether `item` is what one of the object's entries gives for a map.
pub open spec fn entry_has_origin(
    schema: SchemaModel,
    ctx: ContextModel,
    target: TypeModel,
    entries: Seq<(Seq<char>, ValueModel)>,
    item: (Seq<char>, (Seq<FlagModel>, TypedModel)),
) -> bool {
    exists|p: int| #[trigger] entry_comes_from(schema, ctx, target, entries, p, item)
}

/// The entries of a coerced map are under distinct keys, and each is what
/// one of the object's entries gives.
pub proof fn lemma_map_origin(
    schema: SchemaModel,
    ctx: ContextModel,
    target: TypeModel,
    entries: Seq<(Seq<char>, ValueModel)>,
    n: nat,
)
    requires
        target is MapOf,
        n <= entries.len(),
    ensures
        distinct_keys(map_entries(schema, ctx, target, entries, n).0),
        ({
            let kept = map_entries(schema, ctx, target, entries, n).0;
            forall|j: int|
                0 <= j < kept.len() ==> entry_has_origin(
                    schema,
                    ctx,
                    target,
                    entries,
                    #[trigger] kept[j],
                )
        }),
    decreases n,
{
    let now = map_entries(schema, ctx, target, entries, n).0;
    if n > 0 {
        lemma_map_origin(schema, ctx, target, entries, (n - 1) as nat);
        let earlier = map_entries(schema, ctx, target, entries, (n - 1) as nat).0;
        let key = entries[n - 1].0;
        lemma_key_index(earlier, key);
        assert forall|i: int, j: int|
            0 <= i < now.len() && 0 <= j < now.len() && i != j implies (#[trigger] now[i]).0 != (
            #[trigger] now[j]).0 by {
            if i < earlier.len() {
                assert(now[i].0 == earlier[i].0);
            }
            if j < earlier.len() {
                assert(now[j].0 == earlier[j].0);
            }
        }
    }
    assert forall|j: int| 0 <= j < now.len() implies entry_has_origin(
        schema,
        ctx,
        target,
        entries,
        #[trigger] now[j],
    ) by {
        let earlier = map_entries(schema, ctx, target, entries, (n - 1) as nat).0;
        let key = entries[n - 1].0;
        lemma_key_index(earlier, key);
        if j < earlier.len() && now[j] == earlier[j] {
            let p = choose|p: int|
                #[trigger] entry_comes_from(schema, ctx, target, entries, p, earlier[j]);
            assert(entry_comes_from(schema, ctx, target, entries, p, now[j]));
        } else {
            assert(entry_comes_from(schema, ctx, target, entries, n - 1, now[j]));
        }
    }
}

/// What a map holds reads back, entry by entry.
pub proof fn lemma_map_again(
    schema: SchemaModel,
    first: ContextModel,
    second: ContextModel,
    target: TypeModel,
    entries: Seq<(Seq<char>, ValueModel)>,
    m: nat,
)
    requires
        schema_reads_back(schema),
        choices_are_apart(target),
        target is MapOf,
        key_problem(first, *target->MapOf_0) is None,
        first.visited.len() == second.visited.len(),
        first.limit == second.limit,
        m <= map_entries(schema, first, target, entries, entries.len()).0.len(),
    ensures
        ({
            let items = map_entries(schema, first, target, entries, entries.len()).0;
            let again = map_entries(schema, second, target, spelled_entries(items), m).0;
            &&& again.len() == m
            &&& forall|j: int|
                0 <= j < m ==> (#[trigger] again[j]).0 == items[j].0 && plain_of(again[j].1.1)
                    == plain_of(items[j].1.1)
        }),
    decreases fuel(first), target, 0nat, m,
{
    if m > 0 {
        let items = map_entries(schema, first, target, entries, entries.len()).0;
        let spelled = spelled_entries(items);
        lemma_map_again(schema, first, second, target, entries, (m - 1) as nat);
        lemma_map_origin(schema, first, target, entries, entries.len());
        let earlier = map_entries(schema, second, target, spelled, (m - 1) as nat).0;
        let key = items[m - 1].0;
        let p = choose|p: int|
            #[trigger] entry_comes_from(schema, first, target, entries, p, items[m - 1]);
        lemma_again(
            schema,
            enter_scope(first, key),
            enter_scope(second, key),
            *target->MapOf_1,
            Some(entries[p].1),
        );
        lemma_key_ignores_scope(schema, first, second, *target->MapOf_0, key);
        assert(spelled[m - 1] == (key, value_of(plain_of(items[m - 1].1.1))));
        assert forall|j: int| 0 <= j < earlier.len() implies (#[trigger] earlier[j]).0 != key by {
            assert(earlier[j].0 == items[j].0);
        }
        lemma_key_index_none(earlier, key);
    }
}

/// Two lists of map entries with the same keys and plain values, one for
/// one, make the same plain map.
pub proof fn lemma_same_plain_map(
    flags: Seq<FlagModel>,
    items: Seq<(Seq<char>, (Seq<FlagModel>, TypedModel))>,
    other_flags: Seq<FlagModel>,
    other: Seq<(Seq<char>, (Seq<FlagModel>, TypedModel))>,
)
    requires
        items.len() == other.len(),
        forall|j: int|
            0 <= j < items.len() ==> (#[trigger] other[j]).0 == items[j].0 && plain_of(
                other[j].1.1,
            ) == plain_of(items[j].1.1),
    ensures
        plain_of(TypedModel::MapOf(other_flags, other)) == plain_of(TypedModel::MapOf(flags, items)),
{
    assert(plain_of(TypedModel::MapOf(other_flags, other))->MapOf_0 =~= plain_of(
        TypedModel::MapOf(flags, items),
    )->MapOf_0);
}

/// A map reads back.
pub proof fn lemma_again_map(
    schema: SchemaModel,
    first: ContextModel,
    second: ContextModel,
    target: TypeModel,
    value: ValueModel,
)
    requires
        schema_reads_back(schema),
        choices_are_apart(target),
        target is MapOf,
        first.visited.len() == second.visited.len(),
        first.limit == second.limit,
        coerce_map(schema, first, target, Some(value)) is Ok,
    ensures
        coerce_map(
            schema,
            second,
            target,
            Some(value_of(plain_of(coerce_map(schema, first, target, Some(value))->Ok_0))),
        ) matches Ok(again) && plain_of(again) == plain_of(
            coerce_map(schema, first, target, Some(value))->Ok_0,
        ),
    decreases fuel(first), target, 1nat, 0nat,
{
    let r = coerce_map(schema, first, target, Some(value))->Ok_0;
    let entries = value->Object_0;
    let parts = map_entries(schema, first, target, entries, entries.len());
    assert(r == TypedModel::MapOf(seq![FlagModel::ObjectToMap(value)] + parts.1, parts.0));
    lemma_spellings(r);
    lemma_map_again(schema, first, second, target, entries, parts.0.len());
    let spelled = spelled_entries(parts.0);
    let again = map_entries(schema, second, target, spelled, parts.0.len());
    assert(spelled.len() == parts.0.len());
    assert(key_problem(second, *target->MapOf_0) is None);
    lemma_same_plain_map(
        seq![FlagModel::ObjectToMap(value)] + parts.1,
        parts.0,
        seq![FlagModel::ObjectToMap(ValueModel::Object(spelled))] + again.1,
        again.0,
    );
}

/// What a declared field finds in the spelling of a coerced class: the
/// spelling of its own result where its coercion succeeded, and nothing
/// where it did not.
pub proof fn lemma_class_lookup_again(
    schema: SchemaModel,
    first: ContextModel,
    target: TypeModel,
    class: ClassModel,
    entries: Seq<(Seq<char>, ValueModel)>,
    i: int,
)
    requires
        class_reads_back(class),
        fuel(first) > 0,
        0 <= i < class.fields.len(),
    ensures
        ({
            let fields = class_fields(schema, first, target, class, entries, class.fields.len()).0;
            let outcome = field_outcome(schema, first, class, entries, i);
            lookup_field(spelled_fields(fields), class.fields[i]) == (if outcome is Ok {
                Some(value_of(plain_of(outcome->Ok_0)))
            } else {
                None::<ValueModel>
            })
        }),
{
    let n = class.fields.len();
    let fields = class_fields(schema, first, target, class, entries, n).0;
    let positions = kept_positions(schema, first, class, entries, n);
    let spelled = spelled_fields(fields);
    let field = class.fields[i];
    lemma_class_fields_positions(schema, first, target, class, entries, n);
    assert forall|j: int| 0 <= j < spelled.len() implies (#[trigger] spelled[j]).0
        == class.fields[positions[j]].name by {}
    if field_outcome(schema, first, class, entries, i) is Ok {
        assert(positions.contains(i));
        let j = choose|j: int| 0 <= j < positions.len() && positions[j] == i;
        assert forall|k: int| 0 <= k < j implies (#[trigger] spelled[k]).0 != field.name by {
            assert(positions[k] < positions[j]);
        }
        assert(spelled[j] == (field.name, value_of(plain_of(fields[j].1))));
        lemma_key_index_is(spelled, field.name, j);
    } else {
        assert forall|k: int| 0 <= k < spelled.len() implies (#[trigger] spelled[k]).0
            != field.name by {
            assert(positions[k] != i);
        }
        lemma_key_index_none(spelled, field.name);
        if let Some(alias) = field.alias {
            assert forall|k: int| 0 <= k < spelled.len() implies (#[trigger] spelled[k]).0
                != alias by {
                assert(positions[k] != i);
            }
            lemma_key_index_none(spelled, alias);
        }
    }
}

/// What a class holds reads back, field by field.
pub proof fn lemma_class_again(
    schema: SchemaModel,
    first: ContextModel,
    second: ContextModel,
    target: TypeModel,
    class: ClassModel,
    entries: Seq<(Seq<char>, ValueModel)>,
    n: nat,
)
    requires
        schema_reads_back(schema),
        class_reads_back(class),
        fuel(first) > 0,
        first.visited.len() == second.visited.len(),
        first.limit == second.limit,
        n <= class.fields.len(),
    ensures
        ({
            let fields = class_fields(schema, first, target, class, entries, class.fields.len()).0;
            let before = class_fields(schema, first, target, class, entries, n).0;
            let again = class_fields(schema, second, target, class, spelled_fields(fields), n).0;
            &&& again.len() == before.len()
            &&& forall|j: int|
                0 <= j < before.len() ==> (#[trigger] again[j]).0 == before[j].0 && plain_of(
                    again[j].1,
                ) == plain_of(before[j].1)
        }),
    decreases fuel(first), target, 0nat, n,
{
    if n > 0 {
        lemma_class_again(schema, first, second, target, class, entries, (n - 1) as nat);
        let field = class.fields[n - 1];
        let inner_first = enter_scope(enter_class(first, class.name), field.name);
        let inner_second = enter_scope(enter_class(second, class.name), field.name);
        let found = lookup_field(entries, field);
        lemma_class_lookup_again(schema, first, target, class, entries, n - 1);
        if coerce(schema, inner_first, field.ty, found) is Ok {
            lemma_again(schema, inner_first, inner_second, field.ty, found);
        } else {
            lemma_absence_outer(schema, inner_first, field.ty);
            lemma_absence_outer(schema, inner_second, field.ty);
        }
    }
}

/// Two lists of fields with the same names and plain values, one for one,
/// make the same plain class.
pub proof fn lemma_same_plain_class(
    name: Seq<char>,
    flags: Seq<FlagModel>,
    fields: Seq<(Seq<char>, TypedModel)>,
    other_flags: Seq<FlagModel>,
    other: Seq<(Seq<char>, TypedModel)>,
)
    requires
        fields.len() == other.len(),
        forall|j: int|
            0 <= j < fields.len() ==> (#[trigger] other[j]).0 == fields[j].0 && plain_of(
                other[j].1,
            ) == plain_of(fields[j].1),
    ensures
        plain_of(TypedModel::Class(name, other_flags, other)) == plain_of(
            TypedModel::Class(name, flags, fields),
        ),
{
    assert(plain_of(TypedModel::Class(name, other_flags, other))->Class_1 =~= plain_of(
        TypedModel::Class(name, flags, fields),
    )->Class_1);
}

/// A class reads back.
pub proof fn lemma_again_class(
    schema: SchemaModel,
    first: ContextModel,
    second: ContextModel,
    target: TypeModel,
    value: ValueModel,
)
    requires
        schema_reads_back(schema),
        target is Class,
        first.visited.len() == second.visited.len(),
        first.limit == second.limit,
        coerce_class(schema, first, target, value) is Ok,
    ensures
        coerce_class(
            schema,
            second,
            target,
            value_of(plain_of(coerce_class(schema, first, target, value)->Ok_0)),
        ) matches Ok(again) && plain_of(again) == plain_of(
            coerce_class(schema, first, target, value)->Ok_0,
        ),
    decreases fuel(first), target, 1nat, 0nat,
{
    let r = coerce_class(schema, first, target, value)->Ok_0;
    let class = find_class(schema, target->Class_0)->0;
    let entries = value->Object_0;
    let n = class.fields.len();
    let parts = class_fields(schema, first, target, class, entries, n);
    assert(r == TypedModel::Class(class.name, parts.1, parts.0));
    assert(find_class(schema, target->Class_0) == Some(class));
    assert(class_reads_back(class));
    lemma_spellings(r);
    lemma_class_again(schema, first, second, target, class, entries, n);
    let again = class_fields(schema, second, target, class, spelled_fields(parts.0), n);
    lemma_same_plain_class(class.name, parts.1, parts.0, again.1, again.0);
}

/// Coercion is idempotent on what it has produced.
///
/// If a value is coerced into a target type, then the plain value of the
/// result, spelled as a loosely typed value, is coerced into the same target
/// type again, and to the same plain value; the flags may differ. This
/// holds for every target type in which every union, those in the key
/// types of maps aside, chooses among alternatives that take values of
/// different shapes; over every schema whose classes can be read back from
/// their own fields; and under every scope at the same depth, with the
/// same limit.
///
/// Without these premises it does not hold.
///
/// - A union whose alternatives share a shape: the union of a class `C`,
///   with one field `a` of type float, and a map from strings to integers,
///   and the object `{"a": "12"}`. The class reads no float from a text, so
///   the map is chosen and gives `{"a": 12}`. That object holds a number,
///   which the class takes, and the class is then the closer match. The same
///   union as the type of a field makes a class that cannot be read back.
/// - A field's alias that is another field's name: a class with the integer
///   fields `f`, of alias `g`, and `g`, of alias `h`, and the object
///   `{"h": 1}`. It gives `{"g": 1}` with `f` missing; in that object `f` is
///   found under its alias, which gives `{"f": 1, "g": 1}`.
/// - Two fields of one name: a class with two fields `a`, an integer and a
///   string, and the object `{"a": "1"}`. It gives the integer and the text;
///   in their spelling both fields find the integer, which is no string, and
///   the second field is left out.
pub proof fn law_coercion_is_idempotent(
    schema: SchemaModel,
    first: ContextModel,
    second: ContextModel,
    target: TypeModel,
    value: Option<ValueModel>,
)
    requires
        schema_reads_back(schema),
        choices_are_apart(target),
        first.visited.len() == second.visited.len(),
        first.limit == second.limit,
        coerce(schema, first, target, value) is Ok,
    ensures
        coerce(
            schema,
            second,
            target,
            Some(value_of(plain_of(coerce(schema, first, target, value)->Ok_0))),
        ) matches Ok(again) && plain_of(again) == plain_of(
            coerce(schema, first, target, value)->Ok_0,
        ),
{
    lemma_again(schema, first, second, target, value);
}

/// Coercion into a map is idempotent on what it has produced, whatever the
/// key type is: a map that was coerced, spelled as an object, is coerced
/// into the same map type again, with the same keys in the same order and
/// the same plain values. This holds for every value type whose unions
/// choose among alternatives that take values of different shapes, over
/// every schema whose classes can be read back from their own fields, and
/// under every scope at the same depth, with the same limit.
///
/// Without these premises it does not hold. For the first, take as value
/// type the union of a class `C`, with one field `a` of type float, and a
/// map from strings to integers, and the object `{"k": {"a": "12"}}`: the
/// entry is a map at first, `{"a": 12}`, and the class `C` when that is
/// coerced again. For the second, take as value type a class with the
/// integer fields `f`, of alias `g`, and `g`, of alias `h`, and the object
/// `{"k": {"h": 1}}`: the entry is `{"g": 1}` at first and
/// `{"f": 1, "g": 1}` when that is coerced again.
pub proof fn law_map_coercion_is_idempotent(
    schema: SchemaModel,
    first: ContextModel,
    second: ContextModel,
    key_type: TypeModel,
    value_type: TypeModel,
    value: ValueModel,
)
    requires
        schema_reads_back(schema),
        choices_are_apart(value_type),
        first.visited.len() == second.visited.len(),
        first.limit == second.limit,
        coerce_map(
            schema,
            first,
            TypeModel::MapOf(Box::new(key_type), Box::new(value_type)),
            Some(value),
        ) is Ok,
    ensures
        ({
            let target = TypeModel::MapOf(Box::new(key_type), Box::new(value_type));
            let produced = coerce_map(schema, first, target, Some(value))->Ok_0;
            coerce_map(schema, second, target, Some(value_of(plain_of(produced)))) matches Ok(
                again,
            ) && plain_of(again) == plain_of(produced)
        }),
{
    let target = TypeModel::MapOf(Box::new(key_type), Box::new(value_type));
    lemma_again_map(schema, first, second, target, value);
}

} // verus!
