//! Which alternative a union takes.

use vstd::prelude::*;
use crate::coercer::semantics::{coerce_bare, union_best, union_failure, Outcome};
use crate::context::ContextModel;
use crate::error::{specificity, ErrorModel};
use crate::field_type::TypeModel;
use crate::flags::saturate;
use crate::schema::SchemaModel;
use crate::typed::{typed_score, TypedModel};
use crate::value::ValueModel;

verus! {

/// What the alternative at position `i` of a union yields for a value.
pub open spec fn alternative_outcome(
    schema: SchemaModel,
    ctx: ContextModel,
    target: TypeModel,
    value: ValueModel,
    i: int,
) -> Outcome {
    coerce_bare(schema, ctx, target->Union_0[i], Some(value))
}

/// The score by which alternatives are compared.
pub open spec fn rank(t: TypedModel) -> u64 {
    saturate(typed_score(t))
}

/// Of the first `n` alternatives of a union, the one that is chosen
/// succeeds, no alternative that succeeds has a lower score, and none before
/// it has the same score. None is chosen exactly if every alternative fails.
/// The alternatives are as many as a machine can hold.
pub proof fn law_union_takes_the_lowest_score(
    schema: SchemaModel,
    ctx: ContextModel,
    target: TypeModel,
    value: ValueModel,
    n: nat,
)
    requires
        target is Union,
        n <= target->Union_0.len() <= usize::MAX,
    ensures
        match union_best(schema, ctx, target, value, n) {
            Some((chosen, t)) => {
                &&& chosen < n
                &&& alternative_outcome(schema, ctx, target, value, chosen as int) == Ok::<
                    TypedModel,
                    ErrorModel,
                >(t)
                &&& forall|i: int|
                    0 <= i < n && (#[trigger] alternative_outcome(schema, ctx, target, value, i))
                        is Ok ==> rank(t) <= rank(
                        alternative_outcome(schema, ctx, target, value, i)->Ok_0,
                    )
                &&& forall|i: int|
                    0 <= i < chosen && (#[trigger] alternative_outcome(
                        schema,
                        ctx,
                        target,
                        value,
                        i,
                    )) is Ok ==> rank(t) < rank(
                        alternative_outcome(schema, ctx, target, value, i)->Ok_0,
                    )
            },
            None => forall|i: int|
                0 <= i < n ==> (#[trigger] alternative_outcome(schema, ctx, target, value, i))
                    is Err,
        },
    decreases n,
{
    if n > 0 {
        law_union_takes_the_lowest_score(schema, ctx, target, value, (n - 1) as nat);
        assert(alternative_outcome(schema, ctx, target, value, n - 1) == coerce_bare(
            schema,
            ctx,
            target->Union_0[n - 1],
            Some(value),
        ));
    }
}

/// How specific the failure of the alternative at position `i` is.
pub open spec fn failure_rank(
    schema: SchemaModel,
    ctx: ContextModel,
    target: TypeModel,
    value: ValueModel,
    i: int,
) -> nat {
    specificity(alternative_outcome(schema, ctx, target, value, i)->Err_0.kind)
}

/// The position, among the first `n` alternatives of a union, of the
/// alternative that fails most specifically, the earliest among equals.
pub open spec fn worst_position(
    schema: SchemaModel,
    ctx: ContextModel,
    target: TypeModel,
    value: ValueModel,
    n: nat,
) -> Option<int>
    decreases n,
{
    if n == 0 || n > target->Union_0.len() {
        None
    } else {
        let earlier = worst_position(schema, ctx, target, value, (n - 1) as nat);
        if alternative_outcome(schema, ctx, target, value, n - 1) is Err && (earlier is None
            || failure_rank(schema, ctx, target, value, n - 1) > failure_rank(
            schema,
            ctx,
            target,
            value,
            earlier->0,
        )) {
            Some(n - 1)
        } else {
            earlier
        }
    }
}

/// Of the first `n` alternatives of a union, the failure that is reported
/// is the failure of an alternative, no alternative fails more
/// specifically, and none before it fails as specifically. None is reported
/// exactly if every alternative succeeds.
pub proof fn law_union_reports_the_most_specific_failure(
    schema: SchemaModel,
    ctx: ContextModel,
    target: TypeModel,
    value: ValueModel,
    n: nat,
)
    requires
        target is Union,
        n <= target->Union_0.len(),
    ensures
        match worst_position(schema, ctx, target, value, n) {
            Some(k) => {
                &&& 0 <= k < n
                &&& alternative_outcome(schema, ctx, target, value, k) is Err
                &&& union_failure(schema, ctx, target, value, n) == Some(
                    alternative_outcome(schema, ctx, target, value, k)->Err_0,
                )
                &&& forall|i: int|
                    0 <= i < n && (#[trigger] alternative_outcome(schema, ctx, target, value, i))
                        is Err ==> failure_rank(schema, ctx, target, value, i) <= failure_rank(
                        schema,
                        ctx,
                        target,
                        value,
                        k,
                    )
                &&& forall|i: int|
                    0 <= i < k && (#[trigger] alternative_outcome(schema, ctx, target, value, i))
                        is Err ==> failure_rank(schema, ctx, target, value, i) < failure_rank(
                        schema,
                        ctx,
                        target,
                        value,
                        k,
                    )
            },
            None => union_failure(schema, ctx, target, value, n) is None && forall|i: int|
                0 <= i < n ==> (#[trigger] alternative_outcome(schema, ctx, target, value, i))
                    is Ok,
        },
    decreases n,
{
    if n > 0 {
        law_union_reports_the_most_specific_failure(schema, ctx, target, value, (n - 1) as nat);
        assert(alternative_outcome(schema, ctx, target, value, n - 1) == coerce_bare(
            schema,
            ctx,
            target->Union_0[n - 1],
            Some(value),
        ));
    }
}

} // verus!
