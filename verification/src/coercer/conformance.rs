//! What coercion produces is a value of the target type.

use vstd::prelude::*;

use crate::coercer::key_laws::{law_key_check, only_literals};
use crate::coercer::semantics::{
    class_fields,
    coerce,
    coerce_bare,
    coerce_class,
    coerce_enum,
    coerce_list,
    coerce_map,
    coerce_tuple,
    coerce_union,
    enum_member,
    is_aliased,
    is_named,
    fuel,
    list_items,
    lookup_field,
    map_entries,
    tuple_items,
    union_best,
};
use crate::context::{enter_class, enter_scope, ContextModel};
use crate::error::ErrorModel;
use crate::field_type::{LiteralModel, TypeModel, TypeValue};

use crate::lookup::{first_index, lemma_first_from, lemma_key_index};
use crate::schema::{find_class, find_enum, ClassModel, EnumModel, SchemaModel};
use crate::text::{
    decimal, is_decimal_text, lemma_integer_spells_decimal, normalize, parse_int, trim,
};
use crate::typed::{plain_of, PlainModel, TypedModel};
use crate::value::{bare_value, NumberModel, ValueModel};

verus! {

/// Whether `member` is the name of a member of `e` that is not skipped.
pub open spec fn is_member(e: EnumModel, member: Seq<char>) -> bool {
    exists|i: int|
        0 <= i < e.values.len() && !(#[trigger] e.values[i]).skip && e.values[i].name == member
}

/// Whether a text is taken as a key by a key type.
pub open spec fn key_fits(schema: SchemaModel, key_type: TypeModel, key: Seq<char>) -> bool
    decreases key_type,
{
    match key_type {
        TypeModel::Primitive(TypeValue::String) => true,
        TypeModel::Primitive(TypeValue::Int) => parse_int(trim(key)) is Some,
        TypeModel::Enum(name) => find_enum(schema, name) matches Some(e) && enum_member(e, key)
            is Some,
        TypeModel::Literal(LiteralModel::String(text)) => key == text || normalize(key) == text,
        TypeModel::Literal(LiteralModel::Int(n)) => parse_int(trim(key)) == Some(n),
        TypeModel::Union(alternatives) => exists|i: int|
            0 <= i < alternatives.len() && key_fits(schema, #[trigger] alternatives[i], key),
        _ => false,
    }
}

/// Whether a plain value is a value of a type.
///
/// A primitive type has the values of its kind, a decimal number only in a
/// spelling of one; a literal type has its literal; an enum has its members
/// that are not skipped. A class has values of its name whose fields are
/// declared fields with values of their types. A list has lists of values
/// of its element type, a tuple lists with a value of the type of each
/// position, a map entries under distinct keys that fit its key type, with
/// values of its value type. An optional type has null and the values of its
/// inner type, a union the values of its alternatives, and a constrained
/// type those of its base.
pub open spec fn conforms(schema: SchemaModel, t: TypeModel, p: PlainModel) -> bool
    decreases p, 0nat, t,
{
    match t {
        TypeModel::Constrained(base, _) => conforms(schema, *base, p),
        TypeModel::Optional(inner) => p is Null || conforms(schema, *inner, p),
        TypeModel::Union(alternatives) => exists|i: int|
            0 <= i < alternatives.len() && conforms(schema, #[trigger] alternatives[i], p),
        TypeModel::Primitive(TypeValue::String) => p is String,
        TypeModel::Primitive(TypeValue::Int) => p is Int,
        TypeModel::Primitive(TypeValue::Float) => p matches PlainModel::Float(text)
            && is_decimal_text(text),
        TypeModel::Primitive(TypeValue::Bool) => p is Bool,
        TypeModel::Primitive(TypeValue::Null) => p is Null,
        TypeModel::Primitive(TypeValue::Media(_)) => false,
        TypeModel::Literal(LiteralModel::String(text)) => p == PlainModel::String(text),
        TypeModel::Literal(LiteralModel::Int(n)) => p == PlainModel::Int(n),
        TypeModel::Literal(LiteralModel::Bool(b)) => p == PlainModel::Bool(b),
        TypeModel::Enum(name) => match (find_enum(schema, name), p) {
            (Some(e), PlainModel::Enum(enum_name, member)) => enum_name == e.name && is_member(
                e,
                member,
            ),
            _ => false,
        },
        TypeModel::Class(name) => match (find_class(schema, name), p) {
            (Some(class), PlainModel::Class(class_name, fields)) => class_name == class.name
                && forall|j: int|
                0 <= j < fields.len() ==> field_conforms(schema, class, #[trigger] fields[j]),
            _ => false,
        },
        TypeModel::List(element) => match p {
            PlainModel::List(items) => forall|j: int|
                0 <= j < items.len() ==> conforms(schema, *element, #[trigger] items[j]),
            _ => false,
        },
        TypeModel::Tuple(types) => match p {
            PlainModel::List(items) => items.len() == types.len() && forall|j: int|
                0 <= j < items.len() ==> conforms(schema, types[j], #[trigger] items[j]),
            _ => false,
        },
        TypeModel::MapOf(key_type, value_type) => match p {
            PlainModel::MapOf(entries) => {
                &&& forall|i: int, j: int|
                    0 <= i < entries.len() && 0 <= j < entries.len() && i != j ==> (
                    #[trigger] entries[i]).0 != (#[trigger] entries[j]).0
                &&& forall|j: int|
                    0 <= j < entries.len() ==> key_fits(
                        schema,
                        *key_type,
                        (#[trigger] entries[j]).0,
                    ) && conforms(schema, *value_type, entries[j].1)
            },
            _ => false,
        },
    }
}

/// Whether a named plain value is a field of a class: the class declares a
/// field of the name, and the value is a value of the field's type.
pub open spec fn field_conforms(
    schema: SchemaModel,
    class: ClassModel,
    field: (Seq<char>, PlainModel),
) -> bool
    decreases field.1, 1nat, class,
{
    exists|i: int|
        0 <= i < class.fields.len() && (#[trigger] class.fields[i]).name == field.0 && conforms(
            schema,
            class.fields[i].ty,
            field.1,
        )
}

/// Whether a type is made of what keys are made of: the text, the
/// integers, an enum, a literal, or a union of literals.
pub open spec fn is_key_material(t: TypeModel) -> bool {
    match t {
        TypeModel::Primitive(TypeValue::String) => true,
        TypeModel::Primitive(TypeValue::Int) => true,
        TypeModel::Enum(_) => true,
        TypeModel::Literal(_) => true,
        TypeModel::Union(_) => only_literals(t),
        _ => false,
    }
}

/// Whether the alternative at position `i` of a union yields `t` for a value.
pub open spec fn alternative_yields(
    schema: SchemaModel,
    ctx: ContextModel,
    target: TypeModel,
    value: ValueModel,
    i: int,
    t: TypedModel,
) -> bool {
    0 <= i < target->Union_0.len() && coerce_bare(
        schema,
        ctx,
        target->Union_0[i],
        Some(value),
    ) == Ok::<TypedModel, ErrorModel>(t)
}

/// What the best of the first `n` alternatives of a union yields.
pub open spec fn best_result(
    schema: SchemaModel,
    ctx: ContextModel,
    target: TypeModel,
    value: ValueModel,
    n: nat,
) -> TypedModel {
    let best = union_best(schema, ctx, target, value, n)->0;
    best.1
}

/// What a union chooses is what one of its alternatives yields.
pub proof fn lemma_union_has_a_success(
    schema: SchemaModel,
    ctx: ContextModel,
    target: TypeModel,
    value: ValueModel,
    n: nat,
)
    requires
        target is Union,
        n <= target->Union_0.len(),
        union_best(schema, ctx, target, value, n) is Some,
    ensures
        exists|i: int|
            #[trigger] alternative_yields(
                schema,
                ctx,
                target,
                value,
                i,
                best_result(schema, ctx, target, value, n),
            ),
    decreases n,
{
    if n > 0 {
        let earlier = union_best(schema, ctx, target, value, (n - 1) as nat);
        let now = union_best(schema, ctx, target, value, n);
        if earlier is Some && best_result(schema, ctx, target, value, n) == best_result(
            schema,
            ctx,
            target,
            value,
            (n - 1) as nat,
        ) {
            lemma_union_has_a_success(schema, ctx, target, value, (n - 1) as nat);
        } else {
            assert(alternative_yields(
                schema,
                ctx,
                target,
                value,
                n - 1,
                best_result(schema, ctx, target, value, n),
            ));
        }
    }
}

/// A text that is coerced into a key type fits the key type.
pub proof fn lemma_key_fits(
    schema: SchemaModel,
    ctx: ContextModel,
    key_type: TypeModel,
    key: Seq<char>,
)
    requires
        is_key_material(key_type),
        coerce_bare(schema, ctx, key_type, Some(ValueModel::String(key))) is Ok,
    ensures
        key_fits(schema, key_type, key),
    decreases key_type,
{
    if let TypeModel::Union(alternatives) = key_type {
        let value = ValueModel::String(key);
        assert(coerce_union(schema, ctx, key_type, value) is Ok);
        lemma_union_has_a_success(schema, ctx, key_type, value, alternatives.len());
        let t = best_result(schema, ctx, key_type, value, alternatives.len());
        let i = choose|i: int| #[trigger] alternative_yields(schema, ctx, key_type, value, i, t);
        assert(only_literals(alternatives[i]));
        lemma_key_fits(schema, ctx, alternatives[i], key);
    }
}

/// A union in which an alternative succeeds chooses one.
pub proof fn lemma_union_success_is_found(
    schema: SchemaModel,
    ctx: ContextModel,
    target: TypeModel,
    value: ValueModel,
    n: nat,
    i: int,
)
    requires
        target is Union,
        0 <= i < n <= target->Union_0.len(),
        coerce_bare(schema, ctx, target->Union_0[i], Some(value)) is Ok,
    ensures
        union_best(schema, ctx, target, value, n) is Some,
    decreases n,
{
    if i < n - 1 {
        lemma_union_success_is_found(schema, ctx, target, value, (n - 1) as nat, i);
    }
}

/// A text that fits a key type is coerced into it, under any context.
pub proof fn lemma_key_is_taken(
    schema: SchemaModel,
    ctx: ContextModel,
    key_type: TypeModel,
    key: Seq<char>,
)
    requires
        is_key_material(key_type),
        key_fits(schema, key_type, key),
    ensures
        coerce_bare(schema, ctx, key_type, Some(ValueModel::String(key))) is Ok,
    decreases key_type,
{
    if let TypeModel::Union(alternatives) = key_type {
        let value = ValueModel::String(key);
        let i = choose|i: int|
            0 <= i < alternatives.len() && key_fits(schema, #[trigger] alternatives[i], key);
        assert(only_literals(alternatives[i]));
        lemma_key_is_taken(schema, ctx, alternatives[i], key);
        lemma_union_success_is_found(schema, ctx, key_type, value, alternatives.len(), i);
        assert(coerce_union(schema, ctx, key_type, value) is Ok);
    }
}

/// The plain value of a list, a class and a map, part by part.
pub proof fn lemma_plain_parts(t: TypedModel)
    ensures
        t matches TypedModel::List(_, kept) ==> plain_of(t) is List && plain_of(t)->List_0.len()
            == kept.len() && forall|j: int|
            0 <= j < kept.len() ==> (#[trigger] plain_of(t)->List_0[j]) == plain_of(kept[j]),
        t matches TypedModel::Class(name, _, fields) ==> plain_of(t) is Class && plain_of(
            t,
        )->Class_0 == name && plain_of(t)->Class_1.len() == fields.len() && forall|j: int|
            0 <= j < fields.len() ==> (#[trigger] plain_of(t)->Class_1[j]) == (
                fields[j].0,
                plain_of(fields[j].1),
            ),
        t matches TypedModel::MapOf(_, entries) ==> plain_of(t) is MapOf && plain_of(
            t,
        )->MapOf_0.len() == entries.len() && forall|j: int|
            0 <= j < entries.len() ==> (#[trigger] plain_of(t)->MapOf_0[j]) == (
                entries[j].0,
                plain_of(entries[j].1.1),
            ),
{
}

/// What coercion produces is a value of the target type.
pub proof fn lemma_conforms(
    schema: SchemaModel,
    ctx: ContextModel,
    target: TypeModel,
    value: Option<ValueModel>,
)
    requires
        coerce(schema, ctx, target, value) is Ok,
    ensures
        conforms(schema, target, plain_of(coerce(schema, ctx, target, value)->Ok_0)),
    decreases fuel(ctx), target, 3nat, 0nat,
{
    match value {
        Some(ValueModel::Markdown(tag, inner)) => {
            lemma_conforms_bare(schema, ctx, target, Some(bare_value(*inner)));
        },
        _ => {
            lemma_conforms_bare(schema, ctx, target, value);
        },
    }
}

/// The same, for the coercion that does not look into fenced blocks.
pub proof fn lemma_conforms_bare(
    schema: SchemaModel,
    ctx: ContextModel,
    target: TypeModel,
    value: Option<ValueModel>,
)
    requires
        coerce_bare(schema, ctx, target, value) is Ok,
    ensures
        conforms(schema, target, plain_of(coerce_bare(schema, ctx, target, value)->Ok_0)),
    decreases fuel(ctx), target, 2nat, 0nat,
{
    match target {
        TypeModel::Constrained(base, _) => {
            lemma_conforms_bare(schema, ctx, *base, value);
        },
        TypeModel::Optional(inner) => {
            match value {
                None => {},
                Some(ValueModel::Null) => {},
                Some(v) => {
                    if coerce_bare(schema, ctx, *inner, Some(v)) is Ok {
                        lemma_conforms_bare(schema, ctx, *inner, Some(v));
                    }
                },
            }
        },
        TypeModel::Primitive(_) => {
            if let Some(ValueModel::Number(NumberModel::Int(n))) = value {
                lemma_integer_spells_decimal(n as int);
            }
        },
        TypeModel::Literal(_) => {},
        TypeModel::Enum(name) => {
            lemma_conforms_enum(schema, ctx, target, value->0);
        },
        TypeModel::Class(_) => {
            lemma_conforms_class(schema, ctx, target, value->0);
        },
        TypeModel::List(_) => {
            lemma_conforms_list(schema, ctx, target, value->0);
        },
        TypeModel::MapOf(_, _) => {
            lemma_conforms_map(schema, ctx, target, value->0);
        },
        TypeModel::Tuple(_) => {
            lemma_conforms_tuple(schema, ctx, target, value->0);
        },
        TypeModel::Union(_) => {
            lemma_conforms_union(schema, ctx, target, value->0);
        },
    }
}

/// The member that a text names is a member that is not skipped.
pub proof fn lemma_named_member(e: EnumModel, s: Seq<char>)
    requires
        enum_member(e, s) is Some,
    ensures
        is_member(e, enum_member(e, s)->0),
{
    let by_name = is_named(s);
    let by_alias = is_aliased(s);
    lemma_first_from(e.values, by_name, 0);
    lemma_first_from(e.values, by_alias, 0);
    let i = if first_index(e.values, by_name) is Some {
        first_index(e.values, by_name)->0
    } else {
        first_index(e.values, by_alias)->0
    };
    assert(!e.values[i].skip && e.values[i].name == enum_member(e, s)->0);
}

/// An enum value is a value of its enum.
pub proof fn lemma_conforms_enum(
    schema: SchemaModel,
    ctx: ContextModel,
    target: TypeModel,
    value: ValueModel,
)
    requires
        target is Enum,
        coerce_enum(schema, ctx, target, target->Enum_0, value) is Ok,
    ensures
        conforms(
            schema,
            target,
            plain_of(coerce_enum(schema, ctx, target, target->Enum_0, value)->Ok_0),
        ),
{
    let e = find_enum(schema, target->Enum_0)->0;
    lemma_named_member(e, value->String_0);
}

/// A union's value is a value of one of its alternatives.
pub proof fn lemma_conforms_union(
    schema: SchemaModel,
    ctx: ContextModel,
    target: TypeModel,
    value: ValueModel,
)
    requires
        target is Union,
        coerce_union(schema, ctx, target, value) is Ok,
    ensures
        conforms(schema, target, plain_of(coerce_union(schema, ctx, target, value)->Ok_0)),
    decreases fuel(ctx), target, 1nat, 0nat,
{
    let alternatives = target->Union_0;
    lemma_union_has_a_success(schema, ctx, target, value, alternatives.len());
    let t = best_result(schema, ctx, target, value, alternatives.len());
    let i = choose|i: int| #[trigger] alternative_yields(schema, ctx, target, value, i, t);
    lemma_conforms_bare(schema, ctx, alternatives[i], Some(value));
    assert(conforms(schema, alternatives[i], plain_of(t)));
}

/// What a list keeps are values of its element type.
pub proof fn lemma_list_items_conform(
    schema: SchemaModel,
    ctx: ContextModel,
    target: TypeModel,
    items: Seq<ValueModel>,
    n: nat,
)
    requires
        target is List,
        n <= items.len(),
    ensures
        forall|j: int|
            0 <= j < list_items(schema, ctx, target, items, n).0.len() ==> conforms(
                schema,
                *target->List_0,
                plain_of(#[trigger] list_items(schema, ctx, target, items, n).0[j]),
            ),
    decreases fuel(ctx), target, 0nat, n,
{
    if n > 0 {
        lemma_list_items_conform(schema, ctx, target, items, (n - 1) as nat);
        let inner = enter_scope(ctx, decimal((n - 1) as nat));
        if coerce(schema, inner, *target->List_0, Some(items[n - 1])) is Ok {
            lemma_conforms(schema, inner, *target->List_0, Some(items[n - 1]));
        }
    }
}

/// A list is a value of its list type.
pub proof fn lemma_conforms_list(
    schema: SchemaModel,
    ctx: ContextModel,
    target: TypeModel,
    value: ValueModel,
)
    requires
        target is List,
        coerce_list(schema, ctx, target, value) is Ok,
    ensures
        conforms(schema, target, plain_of(coerce_list(schema, ctx, target, value)->Ok_0)),
    decreases fuel(ctx), target, 1nat, 0nat,
{
    let items = value->Array_0;
    lemma_list_items_conform(schema, ctx, target, items, items.len());
    lemma_plain_parts(coerce_list(schema, ctx, target, value)->Ok_0);
}

/// What a tuple holds are values of the types of their positions.
pub proof fn lemma_tuple_items_conform(
    schema: SchemaModel,
    ctx: ContextModel,
    target: TypeModel,
    items: Seq<ValueModel>,
    n: nat,
)
    requires
        target is Tuple,
        n <= items.len(),
        n <= target->Tuple_0.len(),
        tuple_items(schema, ctx, target, items, n) is Ok,
    ensures
        tuple_items(schema, ctx, target, items, n)->Ok_0.len() == n,
        forall|j: int|
            0 <= j < n ==> conforms(
                schema,
                target->Tuple_0[j],
                plain_of(#[trigger] tuple_items(schema, ctx, target, items, n)->Ok_0[j]),
            ),
    decreases fuel(ctx), target, 0nat, n,
{
    if n > 0 {
        lemma_tuple_items_conform(schema, ctx, target, items, (n - 1) as nat);
        let inner = enter_scope(ctx, decimal((n - 1) as nat));
        lemma_conforms(schema, inner, target->Tuple_0[n - 1], Some(items[n - 1]));
    }
}

/// A tuple is a value of its tuple type.
pub proof fn lemma_conforms_tuple(
    schema: SchemaModel,
    ctx: ContextModel,
    target: TypeModel,
    value: ValueModel,
)
    requires
        target is Tuple,
        coerce_tuple(schema, ctx, target, value) is Ok,
    ensures
        conforms(schema, target, plain_of(coerce_tuple(schema, ctx, target, value)->Ok_0)),
    decreases fuel(ctx), target, 1nat, 0nat,
{
    let items = value->Array_0;
    lemma_tuple_items_conform(schema, ctx, target, items, items.len());
    lemma_plain_parts(coerce_tuple(schema, ctx, target, value)->Ok_0);
}

/// What a class holds are fields of the class.
pub proof fn lemma_class_fields_conform(
    schema: SchemaModel,
    ctx: ContextModel,
    target: TypeModel,
    class: ClassModel,
    entries: Seq<(Seq<char>, ValueModel)>,
    n: nat,
)
    requires
        fuel(ctx) > 0,
        n <= class.fields.len(),
    ensures
        forall|j: int|
            0 <= j < class_fields(schema, ctx, target, class, entries, n).0.len()
                ==> field_conforms(
                schema,
                class,
                (
                    (#[trigger] class_fields(schema, ctx, target, class, entries, n).0[j]).0,
                    plain_of(class_fields(schema, ctx, target, class, entries, n).0[j].1),
                ),
            ),
    decreases fuel(ctx), target, 0nat, n,
{
    if n > 0 {
        lemma_class_fields_conform(schema, ctx, target, class, entries, (n - 1) as nat);
        let field = class.fields[n - 1];
        let inner = enter_scope(enter_class(ctx, class.name), field.name);
        let found = lookup_field(entries, field);
        if coerce(schema, inner, field.ty, found) is Ok {
            lemma_conforms(schema, inner, field.ty, found);
        }
    }
}

/// A class value is a value of its class.
pub proof fn lemma_conforms_class(
    schema: SchemaModel,
    ctx: ContextModel,
    target: TypeModel,
    value: ValueModel,
)
    requires
        target is Class,
        coerce_class(schema, ctx, target, value) is Ok,
    ensures
        conforms(schema, target, plain_of(coerce_class(schema, ctx, target, value)->Ok_0)),
    decreases fuel(ctx), target, 1nat, 0nat,
{
    let class = find_class(schema, target->Class_0)->0;
    let entries = value->Object_0;
    lemma_class_fields_conform(schema, ctx, target, class, entries, class.fields.len());
    lemma_plain_parts(coerce_class(schema, ctx, target, value)->Ok_0);
}

/// What a map holds are entries under distinct keys that fit the key type,
/// with values of the value type.
pub proof fn lemma_map_entries_conform(
    schema: SchemaModel,
    ctx: ContextModel,
    target: TypeModel,
    entries: Seq<(Seq<char>, ValueModel)>,
    n: nat,
)
    requires
        target is MapOf,
        is_key_material(*target->MapOf_0),
        n <= entries.len(),
    ensures
        ({
            let items = map_entries(schema, ctx, target, entries, n).0;
            &&& forall|i: int, j: int|
                0 <= i < items.len() && 0 <= j < items.len() && i != j ==> (#[trigger] items[i]).0
                    != (#[trigger] items[j]).0
            &&& forall|j: int|
                0 <= j < items.len() ==> key_fits(
                    schema,
                    *target->MapOf_0,
                    (#[trigger] items[j]).0,
                ) && conforms(schema, *target->MapOf_1, plain_of(items[j].1.1))
        }),
    decreases fuel(ctx), target, 0nat, n,
{
    if n > 0 {
        lemma_map_entries_conform(schema, ctx, target, entries, (n - 1) as nat);
        let earlier = map_entries(schema, ctx, target, entries, (n - 1) as nat).0;
        let items = map_entries(schema, ctx, target, entries, n).0;
        let key = entries[n - 1].0;
        let inner = enter_scope(ctx, key);
        lemma_key_index(earlier, key);
        if coerce(schema, inner, *target->MapOf_1, Some(entries[n - 1].1)) is Ok {
            lemma_conforms(schema, inner, *target->MapOf_1, Some(entries[n - 1].1));
            if coerce(schema, ctx, *target->MapOf_0, Some(ValueModel::String(key))) is Ok {
                lemma_key_fits(schema, ctx, *target->MapOf_0, key);
            }
        }
        assert forall|i: int, j: int|
            0 <= i < items.len() && 0 <= j < items.len() && i != j implies (#[trigger] items[i]).0
            != (#[trigger] items[j]).0 by {
            if i < earlier.len() {
                assert(items[i].0 == earlier[i].0);
            }
            if j < earlier.len() {
                assert(items[j].0 == earlier[j].0);
            }
        }
    }
}

/// A map is a value of its map type.
pub proof fn lemma_conforms_map(
    schema: SchemaModel,
    ctx: ContextModel,
    target: TypeModel,
    value: ValueModel,
)
    requires
        target is MapOf,
        coerce_map(schema, ctx, target, Some(value)) is Ok,
    ensures
        conforms(schema, target, plain_of(coerce_map(schema, ctx, target, Some(value))->Ok_0)),
    decreases fuel(ctx), target, 1nat, 0nat,
{
    let entries = value->Object_0;
    law_key_check(ctx, *target->MapOf_0);
    assert(is_key_material(*target->MapOf_0));
    lemma_map_entries_conform(schema, ctx, target, entries, entries.len());
    lemma_plain_parts(coerce_map(schema, ctx, target, Some(value))->Ok_0);
}

/// Coercion is sound: whatever it produces for a target type, from
/// whatever value and in whatever schema and context, is a value of the
/// target type.
pub proof fn law_coerced_value_conforms(
    schema: SchemaModel,
    ctx: ContextModel,
    target: TypeModel,
    value: Option<ValueModel>,
)
    requires
        coerce(schema, ctx, target, value) is Ok,
    ensures
        conforms(schema, target, plain_of(coerce(schema, ctx, target, value)->Ok_0)),
{
    lemma_conforms(schema, ctx, target, value);
}

} // verus!
