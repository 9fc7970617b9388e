//! Which key types a map admits, stated without reference to the order in
//! which a union is flattened, and what coercion into a map does with the
//! others.

use vstd::prelude::*;
use crate::coercer::semantics::{
    coerce_map,
    key_problem,
    lemma_union_sizes_add,
    lemma_union_sizes_skip,
    scan_key_union,
    union_sizes,
    LiteralKinds,
};
use crate::context::ContextModel;
use crate::error::ErrorKind;
use crate::field_type::{LiteralModel, TypeModel, TypeValue};
use crate::schema::SchemaModel;
use crate::value::ValueModel;

verus! {

/// The kinds of literal.
pub enum LiteralKind {
    String,
    Int,
    Bool,
}

/// The kind of a literal.
pub open spec fn kind_of(literal: LiteralModel) -> LiteralKind {
    match literal {
        LiteralModel::String(_) => LiteralKind::String,
        LiteralModel::Int(_) => LiteralKind::Int,
        LiteralModel::Bool(_) => LiteralKind::Bool,
    }
}

/// Whether every leaf of `t`, nested unions flattened, is a literal.
pub open spec fn only_literals(t: TypeModel) -> bool
    decreases t,
{
    match t {
        TypeModel::Literal(_) => true,
        TypeModel::Union(items) => forall|i: int|
            0 <= i < items.len() ==> only_literals(#[trigger] items[i]),
        _ => false,
    }
}

/// Whether a leaf of `t`, nested unions flattened, is a literal of this kind.
pub open spec fn has_kind(t: TypeModel, kind: LiteralKind) -> bool
    decreases t,
{
    match t {
        TypeModel::Literal(literal) => kind_of(literal) == kind,
        TypeModel::Union(items) => exists|i: int|
            0 <= i < items.len() && has_kind(#[trigger] items[i], kind),
        _ => false,
    }
}

/// Whether `t` is a union of literals of more than one kind.
pub open spec fn is_mixed_literal_union(t: TypeModel) -> bool {
    t is Union && only_literals(t) && (has_kind(t, LiteralKind::String) && has_kind(
        t,
        LiteralKind::Int,
    ) || has_kind(t, LiteralKind::String) && has_kind(t, LiteralKind::Bool) || has_kind(
        t,
        LiteralKind::Int,
    ) && has_kind(t, LiteralKind::Bool))
}

/// Whether `t` is a union whose leaves are all string literals or all
/// integer literals.
pub open spec fn is_uniform_literal_union(t: TypeModel) -> bool {
    t is Union && only_literals(t) && !has_kind(t, LiteralKind::Bool) && !(has_kind(
        t,
        LiteralKind::String,
    ) && has_kind(t, LiteralKind::Int))
}

/// Whether `t` can be the key type of a map: the text, the integers, an
/// enum, a single string or integer literal, or a union whose leaves are all
/// string literals or all integer literals.
pub open spec fn is_supported_key(t: TypeModel) -> bool {
    match t {
        TypeModel::Primitive(TypeValue::String) => true,
        TypeModel::Primitive(TypeValue::Int) => true,
        TypeModel::Enum(_) => true,
        TypeModel::Literal(LiteralModel::String(_)) => true,
        TypeModel::Literal(LiteralModel::Int(_)) => true,
        _ => is_uniform_literal_union(t),
    }
}

/// Whether every type of `queue` has only literals as leaves.
pub open spec fn all_only_literals(queue: Seq<TypeModel>) -> bool {
    forall|i: int| 0 <= i < queue.len() ==> only_literals(#[trigger] queue[i])
}

/// Whether a type of `queue` has a literal of this kind as a leaf.
pub open spec fn any_has_kind(queue: Seq<TypeModel>, kind: LiteralKind) -> bool {
    exists|i: int| 0 <= i < queue.len() && has_kind(#[trigger] queue[i], kind)
}

/// The leaves of a queue are those of its first type and those of the rest.
proof fn lemma_split_queue(queue: Seq<TypeModel>, kind: LiteralKind)
    requires
        queue.len() > 0,
    ensures
        all_only_literals(queue) <==> only_literals(queue[0]) && all_only_literals(queue.skip(1)),
        any_has_kind(queue, kind) <==> has_kind(queue[0], kind) || any_has_kind(
            queue.skip(1),
            kind,
        ),
{
    let rest = queue.skip(1);
    if all_only_literals(queue) {
        assert forall|i: int| 0 <= i < rest.len() implies only_literals(#[trigger] rest[i]) by {
            assert(rest[i] == queue[i + 1]);
        }
    }
    if only_literals(queue[0]) && all_only_literals(rest) {
        assert forall|i: int| 0 <= i < queue.len() implies only_literals(#[trigger] queue[i]) by {
            if i > 0 {
                assert(queue[i] == rest[i - 1]);
            }
        }
    }
    if any_has_kind(queue, kind) {
        let i = choose|i: int| 0 <= i < queue.len() && has_kind(#[trigger] queue[i], kind);
        if i > 0 {
            assert(rest[i - 1] == queue[i]);
        }
    }
    if any_has_kind(rest, kind) {
        let i = choose|i: int| 0 <= i < rest.len() && has_kind(#[trigger] rest[i], kind);
        assert(queue[i + 1] == rest[i]);
    }
}

/// The leaves of two queues, one behind the other, are those of both.
proof fn lemma_join_queues(a: Seq<TypeModel>, b: Seq<TypeModel>, kind: LiteralKind)
    ensures
        all_only_literals(a + b) <==> all_only_literals(a) && all_only_literals(b),
        any_has_kind(a + b, kind) <==> any_has_kind(a, kind) || any_has_kind(b, kind),
{
    let ab = a + b;
    if all_only_literals(ab) {
        assert forall|i: int| 0 <= i < a.len() implies only_literals(#[trigger] a[i]) by {
            assert(a[i] == ab[i]);
        }
        assert forall|i: int| 0 <= i < b.len() implies only_literals(#[trigger] b[i]) by {
            assert(b[i] == ab[i + a.len()]);
        }
    }
    if all_only_literals(a) && all_only_literals(b) {
        assert forall|i: int| 0 <= i < ab.len() implies only_literals(#[trigger] ab[i]) by {
            if i < a.len() {
                assert(ab[i] == a[i]);
            } else {
                assert(ab[i] == b[i - a.len()]);
            }
        }
    }
    if any_has_kind(ab, kind) {
        let i = choose|i: int| 0 <= i < ab.len() && has_kind(#[trigger] ab[i], kind);
        if i < a.len() {
            assert(ab[i] == a[i]);
        } else {
            assert(ab[i] == b[i - a.len()]);
        }
    }
    if any_has_kind(a, kind) {
        let i = choose|i: int| 0 <= i < a.len() && has_kind(#[trigger] a[i], kind);
        assert(ab[i] == a[i]);
    }
    if any_has_kind(b, kind) {
        let i = choose|i: int| 0 <= i < b.len() && has_kind(#[trigger] b[i], kind);
        assert(ab[i + a.len()] == b[i]);
    }
}

/// What flattening a queue of types finds: it succeeds exactly if every
/// leaf is a literal, and then it has noted the kinds of all the leaves.
pub proof fn lemma_scan_key_union(queue: Seq<TypeModel>, seen: LiteralKinds)
    ensures
        match scan_key_union(queue, seen) {
            Ok(kinds) => all_only_literals(queue) && kinds.strings == (seen.strings
                || any_has_kind(queue, LiteralKind::String)) && kinds.ints == (seen.ints
                || any_has_kind(queue, LiteralKind::Int)) && kinds.bools == (seen.bools
                || any_has_kind(queue, LiteralKind::Bool)),
            Err(other) => !all_only_literals(queue) && !(other is Literal) && !(other is Union),
        },
    decreases union_sizes(queue, queue.len()),
{
    if queue.len() > 0 {
        let rest = queue.skip(1);
        lemma_union_sizes_skip(queue);
        lemma_split_queue(queue, LiteralKind::String);
        lemma_split_queue(queue, LiteralKind::Int);
        lemma_split_queue(queue, LiteralKind::Bool);
        match queue[0] {
            TypeModel::Literal(LiteralModel::String(_)) => {
                lemma_scan_key_union(rest, LiteralKinds { strings: true, ..seen });
            },
            TypeModel::Literal(LiteralModel::Int(_)) => {
                lemma_scan_key_union(rest, LiteralKinds { ints: true, ..seen });
            },
            TypeModel::Literal(LiteralModel::Bool(_)) => {
                lemma_scan_key_union(rest, LiteralKinds { bools: true, ..seen });
            },
            TypeModel::Union(nested) => {
                lemma_union_sizes_add(rest, nested, nested.len());
                lemma_join_queues(rest, nested, LiteralKind::String);
                lemma_join_queues(rest, nested, LiteralKind::Int);
                lemma_join_queues(rest, nested, LiteralKind::Bool);
                lemma_scan_key_union(rest + nested, seen);
            },
            _ => {},
        }
    }
}

/// The key types that pass the check are exactly the supported ones. Of the
/// others, a union of literals of more than one kind is reported as mixed,
/// and every other one as unsupported.
pub proof fn law_key_check(ctx: ContextModel, key_type: TypeModel)
    ensures
        key_problem(ctx, key_type) is None <==> is_supported_key(key_type),
        !is_supported_key(key_type) ==> key_problem(ctx, key_type)->0.kind == (if is_mixed_literal_union(
            key_type,
        ) {
            ErrorKind::MixedKeyUnion
        } else {
            ErrorKind::UnsupportedMapKey
        }),
{
    if let TypeModel::Union(items) = key_type {
        lemma_scan_key_union(items, LiteralKinds { strings: false, ints: false, bools: false });
    }
}

/// Coercion into a map whose key type is not supported fails for every
/// value that is there, whatever the value is: as a mixed union where the
/// key type is a union of literals of more than one kind, and as an
/// unsupported key type otherwise.
pub proof fn law_unsupported_key_fails(
    schema: SchemaModel,
    ctx: ContextModel,
    key_type: TypeModel,
    value_type: TypeModel,
    value: ValueModel,
)
    requires
        !is_supported_key(key_type),
    ensures
        coerce_map(
            schema,
            ctx,
            TypeModel::MapOf(Box::new(key_type), Box::new(value_type)),
            Some(value),
        ) matches Err(e) && e.kind == (if is_mixed_literal_union(key_type) {
            ErrorKind::MixedKeyUnion
        } else {
            ErrorKind::UnsupportedMapKey
        }),
{
    law_key_check(ctx, key_type);
}

/// Coercion into a map whose key type is a union of literals of more than
/// one kind fails as a mixed union for every value that is there.
pub proof fn law_mixed_key_union_fails(
    schema: SchemaModel,
    ctx: ContextModel,
    key_type: TypeModel,
    value_type: TypeModel,
    value: ValueModel,
)
    requires
        is_mixed_literal_union(key_type),
    ensures
        coerce_map(
            schema,
            ctx,
            TypeModel::MapOf(Box::new(key_type), Box::new(value_type)),
            Some(value),
        ) matches Err(e) && e.kind == ErrorKind::MixedKeyUnion,
{
    law_key_check(ctx, key_type);
}

/// Coercion into a map whose key type is supported never fails on an
/// object, whatever its entries are: entries that cannot be coerced are
/// dropped, and the map may come out empty.
pub proof fn law_map_of_object_succeeds(
    schema: SchemaModel,
    ctx: ContextModel,
    key_type: TypeModel,
    value_type: TypeModel,
    entries: Seq<(Seq<char>, ValueModel)>,
)
    requires
        is_supported_key(key_type),
    ensures
        coerce_map(
            schema,
            ctx,
            TypeModel::MapOf(Box::new(key_type), Box::new(value_type)),
            Some(ValueModel::Object(entries)),
        ) matches Ok(map) && map is MapOf,
{
    law_key_check(ctx, key_type);
}

} // verus!
