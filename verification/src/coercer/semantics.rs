//! What coercion yields, as mathematical functions from (schema, context,
//! target type, value) to a typed value with flags or a failure.

use vstd::prelude::*;
use crate::context::{
    enter_class, enter_scope, error_at, unexpected_null, unexpected_type, ContextModel,
};
use crate::error::{specificity, ErrorKind, ErrorModel};
use crate::field_type::{LiteralModel, TypeModel, TypeValue};
use crate::flags::{saturate, FlagModel};
use crate::lookup::{first_index, key_index};
use crate::schema::{find_class, find_enum, ClassModel, EnumModel, EnumValueModel, FieldModel, SchemaModel};
use crate::text::{decimal, is_decimal_text, normalize, parse_int, signed_decimal, trim};
use crate::typed::{typed_score, with_flag, TypedModel};
use crate::value::{bare_value, shape_of, NumberModel, ValueModel, ValueShape};

verus! {

/// What a coercion attempt yields.
pub type Outcome = Result<TypedModel, ErrorModel>;

/// How many more classes may be entered below `ctx`, one inside the other.
pub open spec fn fuel(ctx: ContextModel) -> nat {
    if ctx.visited.len() >= ctx.limit {
        0
    } else {
        (ctx.limit - ctx.visited.len()) as nat
    }
}

/// Coercion of a value into a primitive type.
pub open spec fn coerce_primitive(
    ctx: ContextModel,
    target: TypeModel,
    primitive: TypeValue,
    value: ValueModel,
) -> Outcome {
    match (primitive, value) {
        (TypeValue::String, ValueModel::String(s)) => Ok(TypedModel::String(Seq::empty(), s)),
        (TypeValue::Int, ValueModel::Number(NumberModel::Int(n))) => Ok(
            TypedModel::Int(Seq::empty(), n),
        ),
        (TypeValue::Int, ValueModel::String(s)) => match parse_int(trim(s)) {
            Some(n) => Ok(TypedModel::Int(seq![FlagModel::StringToInt(s)], n)),
            None => Err(unexpected_type(ctx, target, value)),
        },
        (TypeValue::Float, ValueModel::Number(NumberModel::Float(text))) => if is_decimal_text(
            text,
        ) {
            Ok(TypedModel::Float(Seq::empty(), text))
        } else {
            Err(unexpected_type(ctx, target, value))
        },
        (TypeValue::Float, ValueModel::Number(NumberModel::Int(n))) => Ok(
            TypedModel::Float(seq![FlagModel::IntToFloat(n)], signed_decimal(n as int)),
        ),
        (TypeValue::Bool, ValueModel::Bool(b)) => Ok(TypedModel::Bool(Seq::empty(), b)),
        (TypeValue::Null, ValueModel::Null) => Ok(TypedModel::Null(Seq::empty())),
        _ => Err(unexpected_type(ctx, target, value)),
    }
}

/// Coercion of a value into a literal type: the value must be the literal.
/// A text may differ from a string literal by blanks and quotes around it;
/// an integer literal may be spelled as text.
pub open spec fn coerce_literal(
    ctx: ContextModel,
    target: TypeModel,
    literal: LiteralModel,
    value: ValueModel,
) -> Outcome {
    match literal {
        LiteralModel::String(text) => match value {
            ValueModel::String(s) if s == text || normalize(s) == text => Ok(
                TypedModel::String(Seq::empty(), text),
            ),
            _ => Err(unexpected_type(ctx, target, value)),
        },
        LiteralModel::Int(n) => match coerce_primitive(ctx, target, TypeValue::Int, value) {
            Ok(TypedModel::Int(flags, m)) if m == n => Ok(TypedModel::Int(flags, m)),
            _ => Err(unexpected_type(ctx, target, value)),
        },
        LiteralModel::Bool(b) => match value {
            ValueModel::Bool(x) if x == b => Ok(TypedModel::Bool(Seq::empty(), b)),
            _ => Err(unexpected_type(ctx, target, value)),
        },
    }
}

/// The member of `e` that the text `s` names: the first member that is not
/// skipped and has this name; failing that, the first that is not skipped and
/// has this alias.
pub open spec fn enum_member(e: EnumModel, s: Seq<char>) -> Option<Seq<char>> {
    match first_index(e.values, is_named(s)) {
        Some(i) => Some(e.values[i].name),
        None => match first_index(e.values, is_aliased(s)) {
            Some(i) => Some(e.values[i].name),
            None => None,
        },
    }
}

/// The property of a member of having the name `s` and not being skipped.
pub open spec fn is_named(s: Seq<char>) -> spec_fn(EnumValueModel) -> bool {
    |m: EnumValueModel| !m.skip && m.name == s
}

/// The property of a member of having the alias `s` and not being skipped.
pub open spec fn is_aliased(s: Seq<char>) -> spec_fn(EnumValueModel) -> bool {
    |m: EnumValueModel| !m.skip && m.alias == Some(s)
}

/// Coercion of a value into an enum.
pub open spec fn coerce_enum(
    schema: SchemaModel,
    ctx: ContextModel,
    target: TypeModel,
    name: Seq<char>,
    value: ValueModel,
) -> Outcome {
    match find_enum(schema, name) {
        None => Err(error_at(ctx, ErrorKind::UnknownType, target, Some(shape_of(value)))),
        Some(e) => match value {
            ValueModel::String(s) => match enum_member(e, s) {
                Some(member) => Ok(TypedModel::Enum(e.name, Seq::empty(), member)),
                None => Err(error_at(ctx, ErrorKind::NoMatch, target, Some(ValueShape::String))),
            },
            _ => Err(unexpected_type(ctx, target, value)),
        },
    }
}

/// The value that an object holds for a field: that of the first entry under
/// the field's name; failing that, of the first entry under its alias.
pub open spec fn lookup_field(entries: Seq<(Seq<char>, ValueModel)>, field: FieldModel) -> Option<
    ValueModel,
> {
    match key_index(entries, field.name) {
        Some(i) => Some(entries[i].1),
        None => match field.alias {
            Some(alias) => match key_index(entries, alias) {
                Some(i) => Some(entries[i].1),
                None => None,
            },
            None => None,
        },
    }
}

/// `items` with `value` under `key`: in the place of the entry that has this
/// key, or at the end if there is none.
pub open spec fn insert_entry<V>(items: Seq<(Seq<char>, V)>, key: Seq<char>, value: V) -> Seq<
    (Seq<char>, V),
> {
    match key_index(items, key) {
        Some(i) => items.update(i, (key, value)),
        None => items.push((key, value)),
    }
}

/// The kinds of literal found among the leaves of a union.
pub struct LiteralKinds {
    pub strings: bool,
    pub ints: bool,
    pub bools: bool,
}

/// How many kinds were found.
pub open spec fn kinds_count(kinds: LiteralKinds) -> nat {
    (if kinds.strings { 1nat } else { 0nat }) + (if kinds.ints { 1nat } else { 0nat }) + (if kinds.bools {
        1nat
    } else {
        0nat
    })
}

/// The number of nodes of `t` that flattening nested unions visits.
pub open spec fn union_size(t: TypeModel) -> nat
    decreases t, 0nat,
{
    match t {
        TypeModel::Union(items) => 1 + union_sizes(items, items.len()),
        _ => 1,
    }
}

/// The sizes of the first `n` types, added up.
pub open spec fn union_sizes(items: Seq<TypeModel>, n: nat) -> nat
    decreases items, n,
{
    if n == 0 || n > items.len() {
        0
    } else {
        union_sizes(items, (n - 1) as nat) + union_size(items[n - 1])
    }
}

/// Sizes add up over concatenation.
pub proof fn lemma_union_sizes_add(a: Seq<TypeModel>, b: Seq<TypeModel>, n: nat)
    requires
        n <= b.len(),
    ensures
        union_sizes(a + b, a.len() + n) == union_sizes(a, a.len()) + union_sizes(b, n),
    decreases n,
{
    if n == 0 {
        lemma_union_sizes_prefix(a + b, a, a.len());
    } else {
        lemma_union_sizes_add(a, b, (n - 1) as nat);
        assert((a + b)[a.len() + n - 1] == b[n - 1]);
    }
}

/// The sum over a prefix depends on the prefix alone.
pub proof fn lemma_union_sizes_prefix(s: Seq<TypeModel>, t: Seq<TypeModel>, n: nat)
    requires
        n <= s.len(),
        n <= t.len(),
        forall|i: int| 0 <= i < n ==> s[i] == t[i],
    ensures
        union_sizes(s, n) == union_sizes(t, n),
    decreases n,
{
    if n > 0 {
        lemma_union_sizes_prefix(s, t, (n - 1) as nat);
    }
}

/// Taking the first type off a queue takes its size off the sum.
pub proof fn lemma_union_sizes_skip(q: Seq<TypeModel>)
    requires
        q.len() > 0,
    ensures
        union_sizes(q, q.len()) == union_size(q[0]) + union_sizes(q.skip(1), (q.len() - 1) as nat),
{
    let head = seq![q[0]];
    assert(q =~= head + q.skip(1));
    lemma_union_sizes_add(head, q.skip(1), (q.len() - 1) as nat);
    assert(union_sizes(head, 1) == union_sizes(head, 0) + union_size(head[0]));
}

/// Flattens the queue of types breadth first, noting the kinds of the
/// literals it meets. Fails with the first type met that is neither a
/// literal nor a union.
pub open spec fn scan_key_union(queue: Seq<TypeModel>, seen: LiteralKinds) -> Result<
    LiteralKinds,
    TypeModel,
>
    decreases union_sizes(queue, queue.len()),
{
    if queue.len() == 0 {
        Ok(seen)
    } else {
        let rest = queue.skip(1);
        proof {
            lemma_union_sizes_skip(queue);
            if let TypeModel::Union(nested) = queue[0] {
                lemma_union_sizes_add(rest, nested, nested.len());
            }
        }
        match queue[0] {
            TypeModel::Literal(LiteralModel::String(_)) => scan_key_union(
                rest,
                LiteralKinds { strings: true, ..seen },
            ),
            TypeModel::Literal(LiteralModel::Int(_)) => scan_key_union(
                rest,
                LiteralKinds { ints: true, ..seen },
            ),
            TypeModel::Literal(LiteralModel::Bool(_)) => scan_key_union(
                rest,
                LiteralKinds { bools: true, ..seen },
            ),
            TypeModel::Union(nested) => scan_key_union(rest + nested, seen),
            other => Err(other),
        }
    }
}

/// What is wrong with a type as the key type of a map, if anything is.
///
/// The text, the integers, an enum and a single string or integer literal
/// are in order. So is a union whose leaves, nested unions flattened, are
/// all string literals or all integer literals. A union with a leaf that is
/// no literal is not supported, and that leaf is reported; one whose
/// literals are of more than one kind is reported as mixed; one of boolean
/// literals alone is not supported. Nothing else is supported.
pub open spec fn key_problem(ctx: ContextModel, key_type: TypeModel) -> Option<ErrorModel> {
    match key_type {
        TypeModel::Primitive(TypeValue::String) => None,
        TypeModel::Primitive(TypeValue::Int) => None,
        TypeModel::Enum(_) => None,
        TypeModel::Literal(LiteralModel::String(_)) => None,
        TypeModel::Literal(LiteralModel::Int(_)) => None,
        TypeModel::Union(items) => match scan_key_union(
            items,
            LiteralKinds { strings: false, ints: false, bools: false },
        ) {
            Err(other) => Some(error_at(ctx, ErrorKind::UnsupportedMapKey, other, None)),
            Ok(kinds) => if kinds_count(kinds) > 1 {
                Some(error_at(ctx, ErrorKind::MixedKeyUnion, key_type, None))
            } else if kinds.bools {
                Some(error_at(ctx, ErrorKind::UnsupportedMapKey, key_type, None))
            } else {
                None
            },
        },
        other => Some(error_at(ctx, ErrorKind::UnsupportedMapKey, other, None)),
    }
}

/// Coercion of a value that may be absent into a target type.
///
/// A value recovered from a fenced block is coerced as the value inside the
/// block, and the result is flagged.
pub open spec fn coerce(
    schema: SchemaModel,
    ctx: ContextModel,
    target: TypeModel,
    value: Option<ValueModel>,
) -> Outcome
    decreases fuel(ctx), target, 3nat, 0nat,
{
    match value {
        Some(ValueModel::Markdown(tag, inner)) => match coerce_bare(
            schema,
            ctx,
            target,
            Some(bare_value(*inner)),
        ) {
            Ok(t) => Ok(with_flag(t, FlagModel::ObjectFromMarkdown)),
            Err(e) => Err(e),
        },
        _ => coerce_bare(schema, ctx, target, value),
    }
}

/// Coercion of a value that is not marked as recovered from a fenced block.
///
/// Constraint wrappers are looked through. An optional type takes absence
/// and null as null, and turns a value that its inner type cannot take into
/// null, each with a flag. Any other type fails on absence.
pub open spec fn coerce_bare(
    schema: SchemaModel,
    ctx: ContextModel,
    target: TypeModel,
    value: Option<ValueModel>,
) -> Outcome
    decreases fuel(ctx), target, 2nat, 0nat,
{
    match target {
        TypeModel::Constrained(base, _) => coerce_bare(schema, ctx, *base, value),
        TypeModel::Optional(inner) => match value {
            None => Ok(TypedModel::Null(seq![FlagModel::OptionalDefaultFromNoValue])),
            Some(ValueModel::Null) => Ok(
                TypedModel::Null(seq![FlagModel::OptionalDefaultFromNoValue]),
            ),
            Some(v) => match coerce_bare(schema, ctx, *inner, Some(v)) {
                Ok(t) => Ok(t),
                Err(e) => Ok(TypedModel::Null(seq![FlagModel::DefaultButHadUnparseableValue(e)])),
            },
        },
        _ => match value {
            None => Err(unexpected_null(ctx, target)),
            Some(v) => match target {
                TypeModel::Primitive(primitive) => coerce_primitive(ctx, target, primitive, v),
                TypeModel::Literal(literal) => coerce_literal(ctx, target, literal, v),
                TypeModel::Enum(name) => coerce_enum(schema, ctx, target, name, v),
                TypeModel::Class(_) => coerce_class(schema, ctx, target, v),
                TypeModel::List(_) => coerce_list(schema, ctx, target, v),
                TypeModel::MapOf(_, _) => coerce_map(schema, ctx, target, Some(v)),
                TypeModel::Union(_) => coerce_union(schema, ctx, target, v),
                TypeModel::Tuple(_) => coerce_tuple(schema, ctx, target, v),
                _ => Err(unexpected_type(ctx, target, v)),
            },
        },
    }
}

/// What the first `n` items of an array give for a list type: the items that
/// could be coerced, in order, and a flag for each one that could not.
pub open spec fn list_items(
    schema: SchemaModel,
    ctx: ContextModel,
    target: TypeModel,
    items: Seq<ValueModel>,
    n: nat,
) -> (Seq<TypedModel>, Seq<FlagModel>)
    decreases fuel(ctx), target, 0nat, n,
{
    if n == 0 || n > items.len() {
        (Seq::empty(), Seq::empty())
    } else {
        let (kept, flags) = list_items(schema, ctx, target, items, (n - 1) as nat);
        match target {
            TypeModel::List(element) => match coerce(
                schema,
                enter_scope(ctx, decimal((n - 1) as nat)),
                *element,
                Some(items[n - 1]),
            ) {
                Ok(t) => (kept.push(t), flags),
                Err(e) => (kept, flags.push(FlagModel::ArrayItemParseError((n - 1) as usize, e))),
            },
            _ => (kept, flags),
        }
    }
}

/// Coercion of a value into a list type: every item of an array is coerced
/// by itself, and one that fails is dropped with a flag.
pub open spec fn coerce_list(
    schema: SchemaModel,
    ctx: ContextModel,
    target: TypeModel,
    value: ValueModel,
) -> Outcome
    decreases fuel(ctx), target, 1nat, 0nat,
{
    match (target, value) {
        (TypeModel::List(_), ValueModel::Array(items)) => {
            let (kept, flags) = list_items(schema, ctx, target, items, items.len());
            Ok(TypedModel::List(flags, kept))
        },
        _ => Err(unexpected_type(ctx, target, value)),
    }
}

/// What the first `n` items of an array give for a tuple type: the coerced
/// items if all could be coerced, else the failure of the first that could not.
pub open spec fn tuple_items(
    schema: SchemaModel,
    ctx: ContextModel,
    target: TypeModel,
    items: Seq<ValueModel>,
    n: nat,
) -> Result<Seq<TypedModel>, ErrorModel>
    decreases fuel(ctx), target, 0nat, n,
{
    if n == 0 || n > items.len() {
        Ok(Seq::empty())
    } else {
        match tuple_items(schema, ctx, target, items, (n - 1) as nat) {
            Err(e) => Err(e),
            Ok(done) => match target {
                TypeModel::Tuple(types) => if n <= types.len() {
                    match coerce(
                        schema,
                        enter_scope(ctx, decimal((n - 1) as nat)),
                        types[n - 1],
                        Some(items[n - 1]),
                    ) {
                        Ok(t) => Ok(done.push(t)),
                        Err(e) => Err(e),
                    }
                } else {
                    Ok(done)
                },
                _ => Ok(done),
            },
        }
    }
}

/// Coercion of a value into a tuple type: an array with one item for each
/// position, each of which must be coerced into the type of its position.
pub open spec fn coerce_tuple(
    schema: SchemaModel,
    ctx: ContextModel,
    target: TypeModel,
    value: ValueModel,
) -> Outcome
    decreases fuel(ctx), target, 1nat, 0nat,
{
    match (target, value) {
        (TypeModel::Tuple(types), ValueModel::Array(items)) if items.len() == types.len() => {
            match tuple_items(schema, ctx, target, items, items.len()) {
                Ok(done) => Ok(TypedModel::List(Seq::empty(), done)),
                Err(e) => Err(e),
            }
        },
        _ => Err(unexpected_type(ctx, target, value)),
    }
}

/// The best of the first `n` alternatives of a union for a value: the
/// position and the result of the alternative with the lowest score, the
/// earliest among equals. `None` where none of them succeeds.
pub open spec fn union_best(
    schema: SchemaModel,
    ctx: ContextModel,
    target: TypeModel,
    value: ValueModel,
    n: nat,
) -> Option<(usize, TypedModel)>
    decreases fuel(ctx), target, 0nat, n,
{
    match target {
        TypeModel::Union(alternatives) => if n == 0 || n > alternatives.len() {
            None
        } else {
            let earlier = union_best(schema, ctx, target, value, (n - 1) as nat);
            match coerce_bare(schema, ctx, alternatives[n - 1], Some(value)) {
                Ok(t) => match earlier {
                    Some((_, best)) => if saturate(typed_score(t)) < saturate(typed_score(best)) {
                        Some(((n - 1) as usize, t))
                    } else {
                        earlier
                    },
                    None => Some(((n - 1) as usize, t)),
                },
                Err(_) => earlier,
            }
        },
        _ => None,
    }
}

/// The most specific failure among the first `n` alternatives of a union for
/// a value, the earliest among equals. `None` where none of them fails.
pub open spec fn union_failure(
    schema: SchemaModel,
    ctx: ContextModel,
    target: TypeModel,
    value: ValueModel,
    n: nat,
) -> Option<ErrorModel>
    decreases fuel(ctx), target, 0nat, n,
{
    match target {
        TypeModel::Union(alternatives) => if n == 0 || n > alternatives.len() {
            None
        } else {
            let earlier = union_failure(schema, ctx, target, value, (n - 1) as nat);
            match coerce_bare(schema, ctx, alternatives[n - 1], Some(value)) {
                Err(e) => match earlier {
                    Some(worst) => if specificity(e.kind) > specificity(worst.kind) {
                        Some(e)
                    } else {
                        earlier
                    },
                    None => Some(e),
                },
                Ok(_) => earlier,
            }
        },
        _ => None,
    }
}

/// Coercion of a value into a union: every alternative is tried; the one
/// with the lowest score wins, the earliest among equals, and its result is
/// flagged with its position. Where none succeeds, the most specific of
/// their failures is the failure of the union.
pub open spec fn coerce_union(
    schema: SchemaModel,
    ctx: ContextModel,
    target: TypeModel,
    value: ValueModel,
) -> Outcome
    decreases fuel(ctx), target, 1nat, 0nat,
{
    match target {
        TypeModel::Union(alternatives) => match union_best(
            schema,
            ctx,
            target,
            value,
            alternatives.len(),
        ) {
            Some((index, t)) => Ok(with_flag(t, FlagModel::UnionMatch(index))),
            None => match union_failure(schema, ctx, target, value, alternatives.len()) {
                Some(e) => Err(e),
                None => Err(unexpected_type(ctx, target, value)),
            },
        },
        _ => Err(unexpected_type(ctx, target, value)),
    }
}

/// What the first `n` fields of a class give for the entries of an object:
/// the fields that could be coerced, in declaration order, and a flag for
/// each one that is missing without being optional or could not be coerced.
pub open spec fn class_fields(
    schema: SchemaModel,
    ctx: ContextModel,
    target: TypeModel,
    class: ClassModel,
    entries: Seq<(Seq<char>, ValueModel)>,
    n: nat,
) -> (Seq<(Seq<char>, TypedModel)>, Seq<FlagModel>)
    decreases fuel(ctx), target, 0nat, n,
{
    if n == 0 || n > class.fields.len() || fuel(ctx) == 0 {
        (Seq::empty(), Seq::empty())
    } else {
        let (done, flags) = class_fields(schema, ctx, target, class, entries, (n - 1) as nat);
        let field = class.fields[n - 1];
        let inner = enter_scope(enter_class(ctx, class.name), field.name);
        let found = lookup_field(entries, field);
        match coerce(schema, inner, field.ty, found) {
            Ok(t) => (done.push((field.name, t)), flags),
            Err(e) => (
                done,
                flags.push(
                    FlagModel::FieldParseError(
                        field.name,
                        if found is None {
                            error_at(inner, ErrorKind::MissingRequiredField, field.ty, None)
                        } else {
                            e
                        },
                    ),
                ),
            ),
        }
    }
}

/// Coercion of a value into a class: for each declared field, in declaration
/// order, the object's value under the field's name or alias is coerced into
/// the field's type. A field that is missing or cannot be coerced is left
/// out with a flag; an optional field that is missing becomes null. Where
/// as many classes are in progress in this branch as the context's limit
/// allows, the class is not entered, and the coercion fails with
/// `RecursionLimit`.
pub open spec fn coerce_class(
    schema: SchemaModel,
    ctx: ContextModel,
    target: TypeModel,
    value: ValueModel,
) -> Outcome
    decreases fuel(ctx), target, 1nat, 0nat,
{
    match target {
        TypeModel::Class(name) => if fuel(ctx) == 0 {
            Err(error_at(ctx, ErrorKind::RecursionLimit, target, Some(shape_of(value))))
        } else {
            match find_class(schema, name) {
                None => Err(error_at(ctx, ErrorKind::UnknownType, target, Some(shape_of(value)))),
                Some(class) => match value {
                    ValueModel::Object(entries) => {
                        let (fields, flags) = class_fields(
                            schema,
                            ctx,
                            target,
                            class,
                            entries,
                            class.fields.len(),
                        );
                        Ok(TypedModel::Class(class.name, flags, fields))
                    },
                    _ => Err(unexpected_type(ctx, target, value)),
                },
            }
        },
        _ => Err(unexpected_type(ctx, target, value)),
    }
}

/// What the first `n` entries of an object give for a map type: the entries
/// whose value and key could both be coerced, and a flag for each one that
/// was dropped.
pub open spec fn map_entries(
    schema: SchemaModel,
    ctx: ContextModel,
    target: TypeModel,
    entries: Seq<(Seq<char>, ValueModel)>,
    n: nat,
) -> (Seq<(Seq<char>, (Seq<FlagModel>, TypedModel))>, Seq<FlagModel>)
    decreases fuel(ctx), target, 0nat, n,
{
    if n == 0 || n > entries.len() {
        (Seq::empty(), Seq::empty())
    } else {
        let (items, flags) = map_entries(schema, ctx, target, entries, (n - 1) as nat);
        let (key, value) = entries[n - 1];
        match target {
            TypeModel::MapOf(key_type, value_type) => match coerce(
                schema,
                enter_scope(ctx, key),
                *value_type,
                Some(value),
            ) {
                Err(e) => (items, flags.push(FlagModel::MapValueParseError(key, e))),
                Ok(t) => match coerce(schema, ctx, *key_type, Some(ValueModel::String(key))) {
                    Ok(_) => (insert_entry(items, key, (Seq::empty(), t)), flags),
                    Err(e) => (
                        items,
                        flags.push(FlagModel::MapKeyParseError((n - 1) as usize, e)),
                    ),
                },
            },
            _ => (items, flags),
        }
    }
}

/// Coercion of a value that may be absent into a map type.
///
/// Absence fails, and so does a target that is no map type. Then the key
/// type is checked, before any entry is looked at. Then a value that is an
/// object gives a map: each entry whose value can be coerced into the value
/// type, and whose key, as a text, can be coerced into the key type, is
/// kept, in the order of the object; every other entry is dropped with a
/// flag. A value that is no object fails.
pub open spec fn coerce_map(
    schema: SchemaModel,
    ctx: ContextModel,
    target: TypeModel,
    value: Option<ValueModel>,
) -> Outcome
    decreases fuel(ctx), target, 1nat, 0nat,
{
    match value {
        None => Err(unexpected_null(ctx, target)),
        Some(v) => match target {
            TypeModel::MapOf(key_type, _) => match key_problem(ctx, *key_type) {
                Some(e) => Err(e),
                None => match v {
                    ValueModel::Object(entries) => {
                        let (items, flags) = map_entries(schema, ctx, target, entries, entries.len());
                        Ok(TypedModel::MapOf(seq![FlagModel::ObjectToMap(v)] + flags, items))
                    },
                    _ => Err(unexpected_type(ctx, target, v)),
                },
            },
            _ => Err(unexpected_type(ctx, target, v)),
        },
    }
}

} // verus!
